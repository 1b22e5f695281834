use vstd::prelude::*;

use crate::target::Target;
use crate::text::same_text;

verus! {

/// A task input of moon.
pub enum InputPath {
    /// An environment variable, by name.
    EnvVar(String),
    /// A token function such as `@group(name)`.
    TokenFunc(String),
    /// A file path or glob, relative to the project or, with a leading `/`,
    /// to the workspace.
    Path(String),
}

/// A task output of moon.
pub enum OutputPath {
    /// A glob relative to the project.
    ProjectGlob(String),
    /// A file path or glob, as moon reads it.
    Path(String),
}

/// The mathematical value of an [`InputPath`].
pub enum InputView {
    EnvVar(Seq<char>),
    TokenFunc(Seq<char>),
    Path(Seq<char>),
}

impl View for InputPath {
    type V = InputView;

    open spec fn view(&self) -> InputView {
        match self {
            InputPath::EnvVar(s) => InputView::EnvVar(s@),
            InputPath::TokenFunc(s) => InputView::TokenFunc(s@),
            InputPath::Path(s) => InputView::Path(s@),
        }
    }
}

/// The mathematical value of an [`OutputPath`].
pub enum OutputView {
    ProjectGlob(Seq<char>),
    Path(Seq<char>),
}

impl View for OutputPath {
    type V = OutputView;

    open spec fn view(&self) -> OutputView {
        match self {
            OutputPath::ProjectGlob(s) => OutputView::ProjectGlob(s@),
            OutputPath::Path(s) => OutputView::Path(s@),
        }
    }
}

/// The values of a sequence of inputs.
pub open spec fn input_views(v: Seq<InputPath>) -> Seq<InputView> {
    v.map_values(|i: InputPath| i@)
}

/// The values of a sequence of outputs.
pub open spec fn output_views(v: Seq<OutputPath>) -> Seq<OutputView> {
    v.map_values(|o: OutputPath| o@)
}

/// The values of an optional sequence of inputs.
pub open spec fn opt_input_views(v: Option<Vec<InputPath>>) -> Option<Seq<InputView>> {
    match v {
        Some(v) => Some(input_views(v@)),
        None => None,
    }
}

/// The values of an optional sequence of outputs.
pub open spec fn opt_output_views(v: Option<Vec<OutputPath>>) -> Option<Seq<OutputView>> {
    match v {
        Some(v) => Some(output_views(v@)),
        None => None,
    }
}

/// The values of an optional sequence of strings.
pub open spec fn opt_views(v: Option<Vec<String>>) -> Option<Seq<Seq<char>>> {
    match v {
        Some(v) => Some(v@.map_values(|s: String| s@)),
        None => None,
    }
}

/// `Some(s)` when `s` is not empty, else `None`.
pub open spec fn non_empty<T>(s: Seq<T>) -> Option<Seq<T>> {
    if s.len() > 0 {
        Some(s)
    } else {
        None
    }
}

/// The env file setting of a task.
pub enum EnvFile {
    File(String),
    Enabled(bool),
}

/// How a task's output is shown.
#[derive(PartialEq, Eq, Structural, Debug)]
pub enum OutputStyle {
    Hash,
    Buffer,
    BufferOnlyFailure,
}

/// The platform that runs a task or a project.
#[derive(PartialEq, Eq, Structural, Clone, Copy, Debug)]
pub enum PlatformType {
    Node,
    Bun,
    System,
}

/// The language of a project.
#[derive(PartialEq, Eq, Structural, Debug)]
pub enum LanguageType {
    JavaScript,
    TypeScript,
}

/// The kind of a project.
#[derive(PartialEq, Eq, Structural, Debug)]
pub enum ProjectType {
    Application,
    Library,
}

/// The options of a task; every field is optional.
pub struct TaskOptions {
    pub cache: Option<bool>,
    pub env_file: Option<EnvFile>,
    pub output_style: Option<OutputStyle>,
}

/// A task of moon; every field is optional, so that it merges into what a
/// document already holds.
pub struct TaskConfig {
    pub command: Option<String>,
    pub args: Option<Vec<String>>,
    pub deps: Option<Vec<Target>>,
    pub inputs: Option<Vec<InputPath>>,
    pub outputs: Option<Vec<OutputPath>>,
    pub env: Option<Table<String>>,
    pub options: Option<TaskOptions>,
    pub platform: Option<PlatformType>,
    pub local: Option<bool>,
    pub extends: Option<String>,
}

/// Entries keyed by name, with keys that are unique and kept in the order in
/// which they first came.
pub struct Table<V> {
    entries: Vec<(String, V)>,
}

/// Whether `i` is the first index of key `k` in `entries`.
pub open spec fn first_key_at<V>(entries: Seq<(String, V)>, k: Seq<char>, i: int) -> bool {
    &&& 0 <= i < entries.len()
    &&& entries[i].0@ == k
    &&& forall|j: int| 0 <= j < i ==> entries[j].0@ != k
}

/// Whether `entries` hold key `k`.
pub open spec fn has_key<V>(entries: Seq<(String, V)>, k: Seq<char>) -> bool {
    exists|i: int| 0 <= i < entries.len() && entries[i].0@ == k
}

/// The value of key `k` in `entries`, if any.
pub open spec fn lookup<V>(entries: Seq<(String, V)>, k: Seq<char>) -> Option<V> {
    if has_key(entries, k) {
        Some(entries[choose|i: int| first_key_at(entries, k, i)].1)
    } else {
        None
    }
}

/// `entries` with the value of `key` replaced by `v`, or with the entry
/// added at the end when the key is new.
pub open spec fn table_insert<V>(entries: Seq<(String, V)>, key: String, v: V) -> Seq<(String, V)> {
    if has_key(entries, key@) {
        entries.update(choose|i: int| first_key_at(entries, key@, i), (key, v))
    } else {
        entries.push((key, v))
    }
}

/// Whether the keys of `entries` are pairwise distinct.
pub open spec fn keys_unique<V>(entries: Seq<(String, V)>) -> bool {
    forall|i: int, j: int|
        0 <= i < entries.len() && 0 <= j < entries.len() && i != j ==> entries[i].0@
            != entries[j].0@
}

/// A key that `entries` hold has a first index.
pub proof fn lemma_first_key_exists<V>(entries: Seq<(String, V)>, k: Seq<char>)
    requires
        has_key(entries, k),
    ensures
        exists|i: int| first_key_at(entries, k, i),
    decreases entries.len(),
{
    if entries[0].0@ == k {
        assert(first_key_at(entries, k, 0));
    } else {
        let rest = entries.subrange(1, entries.len() as int);
        let i = choose|i: int| 0 <= i < entries.len() && entries[i].0@ == k;
        assert(rest[i - 1].0@ == k);
        lemma_first_key_exists(rest, k);
        let j = choose|j: int| first_key_at(rest, k, j);
        assert forall|m: int| 0 <= m < j + 1 implies entries[m].0@ != k by {
            if m > 0 {
                assert(entries[m] == rest[m - 1]);
            }
        }
        assert(first_key_at(entries, k, j + 1));
    }
}

/// The value of `i` is the one of the first index of its key.
pub proof fn lemma_lookup_first<V>(entries: Seq<(String, V)>, k: Seq<char>, i: int)
    requires
        first_key_at(entries, k, i),
    ensures
        lookup(entries, k) == Some(entries[i].1),
{
    let j = choose|j: int| first_key_at(entries, k, j);
    assert(first_key_at(entries, k, j));
    if j < i {
        assert(entries[j].0@ != k);
    }
    if j > i {
        assert(entries[i].0@ != k);
    }
}

/// Inserting sets the key's value, keeps every other key's value, and adds
/// only the key.
pub proof fn lemma_insert_lookup<V>(entries: Seq<(String, V)>, key: String, v: V)
    requires
        keys_unique(entries),
    ensures
        lookup(table_insert(entries, key, v), key@) == Some(v),
        forall|k: Seq<char>|
            k != key@ ==> #[trigger] lookup(table_insert(entries, key, v), k) == lookup(entries, k),
        forall|k: Seq<char>|
            #[trigger] has_key(table_insert(entries, key, v), k) <==> has_key(entries, k) || k
                == key@,
{
    let after = table_insert(entries, key, v);
    if has_key(entries, key@) {
        lemma_first_key_exists(entries, key@);
        let i = choose|i: int| first_key_at(entries, key@, i);
        assert(after == entries.update(i, (key, v)));
        assert(first_key_at(after, key@, i));
        lemma_lookup_first(after, key@, i);
        assert forall|k: Seq<char>| k != key@ implies #[trigger] lookup(after, k) == lookup(
            entries,
            k,
        ) by {
            if has_key(entries, k) {
                lemma_first_key_exists(entries, k);
                let j = choose|j: int| first_key_at(entries, k, j);
                assert(first_key_at(after, k, j));
                lemma_lookup_first(after, k, j);
                lemma_lookup_first(entries, k, j);
            } else {
                assert(!has_key(after, k)) by {
                    if has_key(after, k) {
                        let j = choose|j: int| 0 <= j < after.len() && after[j].0@ == k;
                        assert(entries[j].0@ == k);
                    }
                }
            }
        }
        assert forall|k: Seq<char>| #[trigger] has_key(after, k) <==> has_key(entries, k) || k
            == key@ by {
            if has_key(after, k) {
                let j = choose|j: int| 0 <= j < after.len() && after[j].0@ == k;
                if j != i {
                    assert(entries[j].0@ == k);
                }
            }
            if has_key(entries, k) {
                let j = choose|j: int| 0 <= j < entries.len() && entries[j].0@ == k;
                if j != i {
                    assert(after[j].0@ == k);
                } else {
                    assert(after[i].0@ == key@);
                }
            }
        }
    } else {
        let n = entries.len() as int;
        assert(after == entries.push((key, v)));
        assert(first_key_at(after, key@, n));
        lemma_lookup_first(after, key@, n);
        assert forall|k: Seq<char>| k != key@ implies #[trigger] lookup(after, k) == lookup(
            entries,
            k,
        ) by {
            if has_key(entries, k) {
                lemma_first_key_exists(entries, k);
                let j = choose|j: int| first_key_at(entries, k, j);
                assert(first_key_at(after, k, j));
                lemma_lookup_first(after, k, j);
                lemma_lookup_first(entries, k, j);
            } else {
                assert(!has_key(after, k)) by {
                    if has_key(after, k) {
                        let j = choose|j: int| 0 <= j < after.len() && after[j].0@ == k;
                        assert(entries[j].0@ == k);
                    }
                }
            }
        }
        assert forall|k: Seq<char>| #[trigger] has_key(after, k) <==> has_key(entries, k) || k
            == key@ by {
            if has_key(after, k) {
                let j = choose|j: int| 0 <= j < after.len() && after[j].0@ == k;
                if j < n {
                    assert(entries[j].0@ == k);
                }
            }
            if has_key(entries, k) {
                let j = choose|j: int| 0 <= j < entries.len() && entries[j].0@ == k;
                assert(after[j].0@ == k);
            }
        }
    }
}

impl<V> Table<V> {
    /// The table's entries, in their order.
    pub closed spec fn view(&self) -> Seq<(String, V)> {
        self.entries@
    }

    #[verifier::type_invariant]
    spec fn wf(&self) -> bool {
        keys_unique(self.entries@)
    }

    /// An empty table.
    pub fn new() -> (r: Table<V>)
        ensures
            r.view() == Seq::<(String, V)>::empty(),
    {
        Table { entries: Vec::new() }
    }

    /// The table's entries, in their order.
    pub fn entries(&self) -> (r: &Vec<(String, V)>)
        ensures
            r@ == self.view(),
    {
        &self.entries
    }

    /// The index of key `k`, if the table holds it.
    pub fn index_of(&self, k: &str) -> (r: Option<usize>)
        ensures
            r matches Some(i) ==> first_key_at(self.view(), k@, i as int),
            r is None ==> !has_key(self.view(), k@),
    {
        let mut i: usize = 0;
        while i < self.entries.len()
            invariant
                i <= self.entries@.len(),
                forall|j: int| 0 <= j < i ==> self.entries@[j].0@ != k@,
            decreases self.entries@.len() - i,
        {
            if same_text(self.entries[i].0.as_str(), k) {
                return Some(i);
            }
            i = i + 1;
        }
        None
    }

    /// Sets the value of `key` to `v`, in place when the key is already there.
    pub fn insert(&mut self, key: String, v: V)
        ensures
            final(self).view() == table_insert(old(self).view(), key, v),
            lookup(final(self).view(), key@) == Some(v),
            forall|k: Seq<char>|
                k != key@ ==> #[trigger] lookup(final(self).view(), k) == lookup(old(self).view(), k),
            forall|k: Seq<char>|
                #[trigger] has_key(final(self).view(), k) <==> has_key(old(self).view(), k) || k
                    == key@,
    {
        proof {
            use_type_invariant(&*self);
        }
        let found = self.index_of(key.as_str());
        let mut entries: Vec<(String, V)> = Vec::new();
        std::mem::swap(&mut self.entries, &mut entries);
        let ghost before = entries@;
        match found {
            Some(i) => {
                proof {
                    let j = choose|j: int| first_key_at(before, key@, j);
                    assert(j == i as int) by {
                        if j < i {
                            assert(before[j].0@ != key@);
                        }
                        if j > i {
                            assert(before[i as int].0@ != key@);
                        }
                    }
                }
                entries.set(i, (key, v));
            },
            None => {
                entries.push((key, v));
            },
        }
        proof {
            assert(keys_unique(entries@));
            lemma_insert_lookup(before, key, v);
        }
        std::mem::swap(&mut self.entries, &mut entries);
    }
}

/// The groups of inputs of a document, by name.
pub type FileGroups = Table<Vec<InputPath>>;

/// The tasks of a document, by identifier.
pub type Tasks = Table<TaskConfig>;

/// A project's moon document; every field is optional.
pub struct ProjectConfig {
    pub id: Option<String>,
    pub language: Option<LanguageType>,
    pub platform: Option<PlatformType>,
    pub depends_on: Option<Vec<String>>,
    pub file_groups: Option<FileGroups>,
    pub tags: Option<Vec<String>>,
    pub type_of: Option<ProjectType>,
    pub tasks: Option<Tasks>,
}

/// The tasks that every project of a platform inherits; every field is
/// optional.
pub struct InheritedTasksConfig {
    pub file_groups: Option<FileGroups>,
    pub implicit_inputs: Option<Vec<InputPath>>,
    pub tasks: Option<Tasks>,
}

/// Where the workspace finds its projects.
pub enum WorkspaceProjects {
    /// Globs that match project directories.
    Globs(Vec<String>),
    /// Project identifiers and their directories.
    Sources(Table<String>),
}

/// The workspace's moon document; every field is optional.
pub struct WorkspaceConfig {
    pub projects: Option<WorkspaceProjects>,
    pub vcs_default_branch: Option<String>,
}

impl TaskOptions {
    /// Options with no field set.
    pub fn new() -> (r: TaskOptions)
        ensures
            r.cache is None,
            r.env_file is None,
            r.output_style is None,
    {
        TaskOptions { cache: None, env_file: None, output_style: None }
    }
}

impl TaskConfig {
    /// A task with no field set.
    pub fn new() -> (r: TaskConfig)
        ensures
            r.command is None,
            r.args is None,
            r.deps is None,
            r.inputs is None,
            r.outputs is None,
            r.env is None,
            r.options is None,
            r.platform is None,
            r.local is None,
            r.extends is None,
    {
        TaskConfig {
            command: None,
            args: None,
            deps: None,
            inputs: None,
            outputs: None,
            env: None,
            options: None,
            platform: None,
            local: None,
            extends: None,
        }
    }
}

impl ProjectConfig {
    /// A project document with no field set.
    pub fn new() -> (r: ProjectConfig)
        ensures
            r.id is None,
            r.language is None,
            r.platform is None,
            r.depends_on is None,
            r.file_groups is None,
            r.tags is None,
            r.type_of is None,
            r.tasks is None,
    {
        ProjectConfig {
            id: None,
            language: None,
            platform: None,
            depends_on: None,
            file_groups: None,
            tags: None,
            type_of: None,
            tasks: None,
        }
    }
}

impl InheritedTasksConfig {
    /// An inherited tasks document with no field set.
    pub fn new() -> (r: InheritedTasksConfig)
        ensures
            r.file_groups is None,
            r.implicit_inputs is None,
            r.tasks is None,
    {
        InheritedTasksConfig { file_groups: None, implicit_inputs: None, tasks: None }
    }
}

impl WorkspaceConfig {
    /// A workspace document with no field set.
    pub fn new() -> (r: WorkspaceConfig)
        ensures
            r.projects is None,
            r.vcs_default_branch is None,
    {
        WorkspaceConfig { projects: None, vcs_default_branch: None }
    }
}

} // verus!
