//! Where the inputs and outputs of a generation run are looked for: what
//! kind of file a source is, where the output goes, and which compiled
//! libraries may belong to an interface definition.
//!
//! Paths are taken apart and put together by camino, by the rules for
//! paths of the platform that the library is built for. What is decided
//! here is which paths are asked for, and in what order; whether a file
//! exists is for the caller to find out.

use vstd::prelude::*;
use crate::template::slot_texts;
use crate::text::{chars_of, join3, text_of};

verus! {

/// The extension of the file that `path` names, where it has one, by the
/// rules for paths of the platform that the library is built for.
pub uninterp spec fn extension_of(path: Seq<char>) -> Option<Seq<char>>;

/// The name of the file that `path` names, without its extension, where it
/// names one, by the rules for paths of the platform that the library is
/// built for.
pub uninterp spec fn file_stem_of(path: Seq<char>) -> Option<Seq<char>>;

/// `path` without its last component, where it has one, by the rules for
/// paths of the platform that the library is built for.
pub uninterp spec fn parent_of(path: Seq<char>) -> Option<Seq<char>>;

/// `base` with `part` adjoined, by the rules for paths of the platform that
/// the library is built for.
pub uninterp spec fn joined_path(base: Seq<char>, part: Seq<char>) -> Seq<char>;

/// The text that is there, where one is.
pub open spec fn text_if_any(text: Option<String>) -> Option<Seq<char>> {
    match text {
        Some(text) => Some(text@),
        None => None,
    }
}

/// `Utf8Path::extension`: the extension of the file that `path` names,
/// where it has one. It depends on nothing but the path.
#[verifier::external_body]
fn path_extension(path: &str) -> (extension: Option<String>)
    ensures
        text_if_any(extension) == extension_of(path@),
{
    camino::Utf8Path::new(path).extension().map(|s| s.to_owned())
}

/// `Utf8Path::file_stem`: the name of the file that `path` names, without
/// its extension, where it names one. It depends on nothing but the path.
#[verifier::external_body]
fn path_file_stem(path: &str) -> (stem: Option<String>)
    ensures
        text_if_any(stem) == file_stem_of(path@),
{
    camino::Utf8Path::new(path).file_stem().map(|s| s.to_owned())
}

/// `Utf8Path::parent`: `path` without its last component, where it has
/// one; that is a shorter path. It depends on nothing but the path.
#[verifier::external_body]
fn path_parent(path: &str) -> (parent: Option<String>)
    ensures
        text_if_any(parent) == parent_of(path@),
        parent matches Some(p) ==> p@.len() < path@.len(),
{
    camino::Utf8Path::new(path).parent().map(|p| p.as_str().to_owned())
}

/// `Utf8Path::join`: `base` with `part` adjoined. It depends on nothing
/// but the two.
#[verifier::external_body]
fn path_join(base: &str, part: &str) -> (joined: String)
    ensures
        joined@ == joined_path(base@, part@),
{
    camino::Utf8Path::new(base).join(part).into_string()
}

/// Whether `a` and `b` are the same text.
fn same_text(a: &str, b: &str) -> (same: bool)
    ensures
        same == (a@ == b@),
{
    a.to_owned() == b.to_owned()
}

/// Whether a file with this extension is a compiled library.
pub open spec fn library_extension(extension: Seq<char>) -> bool {
    extension == "dll"@ || extension == "so"@ || extension == "dylib"@
}

/// Whether a file with this extension is a compiled library: `dll`, `so`
/// and `dylib` are.
pub fn is_library_extension(extension: &str) -> (r: bool)
    ensures
        r == library_extension(extension@),
{
    same_text(extension, "dll") || same_text(extension, "so") || same_text(extension, "dylib")
}

/// Whether a file at `path` is a compiled library: it is where the path
/// has an extension, and that is the extension of a library.
pub open spec fn library_file(path: Seq<char>) -> bool {
    match extension_of(path) {
        Some(extension) => library_extension(extension),
        None => false,
    }
}

/// Whether `path` names a compiled library rather than an interface
/// definition: it does where its extension is that of a library.
pub fn is_library_file(path: &str) -> (r: bool)
    ensures
        r == library_file(path@),
{
    match path_extension(path) {
        Some(extension) => is_library_extension(extension.as_str()),
        None => false,
    }
}

/// The directory that the output goes to where none is given, for a source
/// whose parent directory is `parent`: that directory, or the current one
/// where the source has no parent.
pub fn out_dir_beside(parent: Option<String>) -> (dir: String)
    ensures
        dir@ == match parent {
            Some(p) => p@,
            None => "."@,
        },
{
    match parent {
        Some(p) => p,
        None => ".".to_owned(),
    }
}

/// The directory that holds the file at `source`, or the current one
/// where the path has no parent.
pub open spec fn directory_of(source: Seq<char>) -> Seq<char> {
    match parent_of(source) {
        Some(parent) => parent,
        None => "."@,
    }
}

/// The directory that the output goes to where none is given: the one
/// that holds the source.
pub fn default_out_dir(source: &str) -> (dir: String)
    ensures
        dir@ == directory_of(source@),
{
    out_dir_beside(path_parent(source))
}

/// `stem` with a hyphen in place of each underscore.
pub open spec fn hyphenated(stem: Seq<char>) -> Seq<char> {
    Seq::new(
        stem.len(),
        |i: int|
            if stem[i] == '_' {
                '-'
            } else {
                stem[i]
            },
    )
}

/// The name of the library of an interface definition with the file stem
/// `stem`: the stem with a hyphen in place of each underscore.
pub fn library_name(stem: &str) -> (name: String)
    ensures
        name@ == hyphenated(stem@),
{
    let chars = chars_of(stem);
    let mut out: Vec<char> = Vec::new();
    let mut i: usize = 0;
    while i < chars.len()
        invariant
            i <= chars.len(),
            chars@ == stem@,
            out@ == hyphenated(stem@).take(i as int),
        decreases chars.len() - i,
    {
        out.push(if chars[i] == '_' { '-' } else { chars[i] });
        i = i + 1;
        assert(out@ =~= hyphenated(stem@).take(i as int));
    }
    assert(hyphenated(stem@).take(chars.len() as int) =~= hyphenated(stem@));
    text_of(&out)
}

/// The file names of the library `name`, one for each extension of a
/// library: `dll`, `so` and `dylib`, in this order.
pub open spec fn library_files(name: Seq<char>) -> Seq<Seq<char>> {
    seq![name + "."@ + "dll"@, name + "."@ + "so"@, name + "."@ + "dylib"@]
}

/// The file names of the library `name`, in the order in which they are
/// looked for.
pub fn library_file_names(name: &str) -> (files: Vec<String>)
    ensures
        files@.len() == 3,
        forall|i: int| 0 <= i < 3 ==> (#[trigger] files@[i])@ == library_files(name@)[i],
{
    let mut files: Vec<String> = Vec::new();
    files.push(join3(name, ".", "dll"));
    files.push(join3(name, ".", "so"));
    files.push(join3(name, ".", "dylib"));
    files
}

/// The paths of `files` in the directory `dir`, in order.
pub open spec fn paths_under(dir: Seq<char>, files: Seq<Seq<char>>) -> Seq<Seq<char>> {
    Seq::new(files.len(), |i: int| joined_path(dir, files[i]))
}

/// Appends the paths of `files` in the directory `dir`, in order.
fn paths_in(dir: &str, files: &Vec<String>, out: &mut Vec<String>)
    ensures
        slot_texts(final(out)@) == slot_texts(old(out)@) + paths_under(dir@, slot_texts(files@)),
{
    let ghost start = slot_texts(out@);
    let ghost all = paths_under(dir@, slot_texts(files@));
    let mut i: usize = 0;
    assert(slot_texts(out@) =~= start + all.take(0));
    while i < files.len()
        invariant
            i <= files.len(),
            all == paths_under(dir@, slot_texts(files@)),
            slot_texts(out@) == start + all.take(i as int),
        decreases files.len() - i,
    {
        let ghost before = slot_texts(out@);
        let path = path_join(dir, files[i].as_str());
        out.push(path);
        proof {
            assert(all[i as int] == joined_path(dir@, slot_texts(files@)[i as int]));
            assert(slot_texts(out@) =~= before.push(path@));
            assert(all.take(i + 1) =~= all.take(i as int).push(all[i as int]));
        }
        i = i + 1;
        assert(slot_texts(out@) =~= start + all.take(i as int));
    }
    assert(all.take(files.len() as int) =~= all);
}

/// A project directory above an interface definition: the manifest that
/// marks it, and where its builds put the library.
#[derive(Debug, PartialEq, Eq)]
pub struct ProjectPlan {
    /// The path of the manifest whose presence marks the directory as a project.
    pub manifest: String,
    /// The paths of the library in the build directories: the release
    /// build before the debug build, each with the three file names in order.
    pub targets: Vec<String>,
}

/// Where the library of an interface definition is looked for.
#[derive(Debug, PartialEq, Eq)]
pub struct SearchPlan {
    /// The paths of the library beside the definition, with the three file
    /// names in order.
    pub siblings: Vec<String>,
    /// The directories above the definition, from the nearest on.
    pub projects: Vec<ProjectPlan>,
}

/// The path of the manifest that marks the directory `root` as a project.
pub open spec fn manifest_path(root: Seq<char>) -> Seq<char> {
    joined_path(root, "Cargo.toml"@)
}

/// The directory of the builds of `profile` of the project at `root`.
pub open spec fn build_directory(root: Seq<char>, profile: Seq<char>) -> Seq<char> {
    joined_path(joined_path(root, "target"@), profile)
}

/// The paths of `files` in the builds of the project at `root`: in the
/// release build and then in the debug build, each with the files in order.
pub open spec fn built_paths(root: Seq<char>, files: Seq<Seq<char>>) -> Seq<Seq<char>> {
    paths_under(build_directory(root, "release"@), files) + paths_under(
        build_directory(root, "debug"@),
        files,
    )
}

/// The paths of the library `name` in the builds of the project at `root`:
/// in the release build and then in the debug build, each with the three
/// file names in order.
pub open spec fn target_paths(root: Seq<char>, name: Seq<char>) -> Seq<Seq<char>> {
    built_paths(root, library_files(name))
}

/// The directories above `dir`, from the nearest on: its parent, the
/// parent of that, and so on while there is one.
pub open spec fn directories_above(dir: Seq<char>) -> Seq<Seq<char>>
    decreases dir.len(),
{
    match parent_of(dir) {
        Some(parent) => if parent.len() < dir.len() {
            seq![parent] + directories_above(parent)
        } else {
            Seq::empty()
        },
        None => Seq::empty(),
    }
}

/// Whether `plan` is the plan for the project at `root` and the library `name`.
pub open spec fn is_project_plan(plan: ProjectPlan, root: Seq<char>, name: Seq<char>) -> bool {
    plan.manifest@ == manifest_path(root) && slot_texts(plan.targets@) == target_paths(root, name)
}

/// Whether `plan` is the plan for a definition in the directory `dir` and
/// the library `name`: the siblings are the three files of the library in
/// `dir`, and the projects are the directories above `dir`, each with its
/// manifest and its targets.
pub open spec fn is_search_plan(plan: SearchPlan, dir: Seq<char>, name: Seq<char>) -> bool {
    &&& slot_texts(plan.siblings@) == paths_under(dir, library_files(name))
    &&& plan.projects@.len() == directories_above(dir).len()
    &&& forall|i: int|
        0 <= i < plan.projects@.len() ==> is_project_plan(
            #[trigger] plan.projects@[i],
            directories_above(dir)[i],
            name,
        )
}

/// The directory and the name of the library that the search for the
/// library of the definition at `udl_path` starts from: the directory that
/// holds the definition, and the stem of its file with a hyphen in place of
/// each underscore. There is none for a path without a parent or without a
/// file name.
pub open spec fn search_origin(udl_path: Seq<char>) -> Option<(Seq<char>, Seq<char>)> {
    match (parent_of(udl_path), file_stem_of(udl_path)) {
        (Some(dir), Some(stem)) => Some((dir, hyphenated(stem))),
        _ => None,
    }
}

/// The plan for a directory above the definition.
fn project_plan(dir: &str, files: &Vec<String>) -> (plan: ProjectPlan)
    ensures
        plan.manifest@ == manifest_path(dir@),
        slot_texts(plan.targets@) == built_paths(dir@, slot_texts(files@)),
{
    let target = path_join(dir, "target");
    let mut targets: Vec<String> = Vec::new();
    assert(slot_texts(targets@) =~= Seq::<Seq<char>>::empty());
    paths_in(path_join(target.as_str(), "release").as_str(), files, &mut targets);
    paths_in(path_join(target.as_str(), "debug").as_str(), files, &mut targets);
    assert(slot_texts(targets@) =~= built_paths(dir@, slot_texts(files@)));
    ProjectPlan { manifest: path_join(dir, "Cargo.toml"), targets }
}

/// Where the library of the interface definition at `udl_path` is looked
/// for, in the order of looking: beside the definition first, then in the
/// build directories of the nearest directory above it that is a project.
///
/// A `LibrarySearch` follows the plan. A path without a parent or without
/// a file name has no plan.
pub fn search_plan(udl_path: &str) -> (plan: Option<SearchPlan>)
    ensures
        match plan {
            Some(p) => search_origin(udl_path@) matches Some(origin) && is_search_plan(
                p,
                origin.0,
                origin.1,
            ),
            None => search_origin(udl_path@) is None,
        },
        plan matches Some(p) ==> p.siblings@.len() == 3 && forall|i: int|
            0 <= i < p.projects@.len() ==> (#[trigger] p.projects@[i]).targets@.len() == 6,
{
    let dir = match path_parent(udl_path) {
        Some(dir) => dir,
        None => {
            return None;
        },
    };
    let stem = match path_file_stem(udl_path) {
        Some(stem) => stem,
        None => {
            return None;
        },
    };
    let name = library_name(stem.as_str());
    let files = library_file_names(name.as_str());
    assert(slot_texts(files@) =~= library_files(name@));
    let mut siblings: Vec<String> = Vec::new();
    assert(slot_texts(siblings@) =~= Seq::<Seq<char>>::empty());
    paths_in(dir.as_str(), &files, &mut siblings);
    assert(slot_texts(siblings@) =~= paths_under(dir@, library_files(name@)));
    let ghost start = dir@;
    let ghost mut above = Seq::<Seq<char>>::empty();
    let mut projects: Vec<ProjectPlan> = Vec::new();
    let mut current = dir;
    assert(above + directories_above(current@) =~= directories_above(start));
    loop
        invariant_except_break
            directories_above(start) == above + directories_above(current@),
        invariant
            slot_texts(files@) == library_files(name@),
            projects@.len() == above.len(),
            forall|i: int|
                0 <= i < projects@.len() ==> is_project_plan(
                    #[trigger] projects@[i],
                    above[i],
                    name@,
                ),
        ensures
            directories_above(start) == above,
        decreases current@.len(),
    {
        match path_parent(current.as_str()) {
            None => {
                assert(above + Seq::<Seq<char>>::empty() =~= above);
                break ;
            },
            Some(parent) => {
                let project = project_plan(parent.as_str(), &files);
                proof {
                    assert(above + (seq![parent@] + directories_above(parent@)) =~= above.push(
                        parent@,
                    ) + directories_above(parent@));
                    above = above.push(parent@);
                }
                projects.push(project);
                current = parent;
            },
        }
    }
    let plan = SearchPlan { siblings, projects };
    proof {
        assert(is_search_plan(plan, start, name@));
        assert(slot_texts(plan.siblings@).len() == 3);
        assert forall|i: int| 0 <= i < plan.projects@.len() implies (#[trigger] plan.projects@[
            i
        ]).targets@.len() == 6 by {
            assert(is_project_plan(plan.projects@[i], directories_above(start)[i], name@));
            assert(slot_texts(plan.projects@[i].targets@).len() == 6);
        }
    }
    Some(plan)
}

/// Where a search stands.
#[derive(Clone, Copy, Debug, PartialEq, Eq, Structural)]
pub enum SearchState {
    /// The sibling at this place is asked for.
    Sibling(usize),
    /// The manifest of the project at this place is asked for.
    Manifest(usize),
    /// In the project at the first place, the target at the second is
    /// asked for.
    Target(usize, usize),
    /// The sibling at this place exists: it is the library.
    FoundSibling(usize),
    /// The target at the second place in the project at the first exists: it
    /// is the library.
    FoundTarget(usize, usize),
    /// There is no library.
    NotFound,
}

/// Whether `state` is a state of a search by `plan`: its places are places
/// of the plan.
pub open spec fn state_of(plan: SearchPlan, state: SearchState) -> bool {
    match state {
        SearchState::Sibling(i) => i < plan.siblings@.len(),
        SearchState::FoundSibling(i) => i < plan.siblings@.len(),
        SearchState::Manifest(p) => p < plan.projects@.len(),
        SearchState::Target(p, t) => p < plan.projects@.len() && t
            < plan.projects@[p as int].targets@.len(),
        SearchState::FoundTarget(p, t) => p < plan.projects@.len() && t
            < plan.projects@[p as int].targets@.len(),
        SearchState::NotFound => true,
    }
}

/// The state in which the projects are looked at from the place `p` on.
pub open spec fn at_project(plan: SearchPlan, p: int) -> SearchState {
    if p < plan.projects@.len() {
        SearchState::Manifest(p as usize)
    } else {
        SearchState::NotFound
    }
}

/// The state in which a search by `plan` begins: with the first sibling,
/// or, without siblings, with the first project.
pub open spec fn first_state(plan: SearchPlan) -> SearchState {
    if plan.siblings@.len() > 0 {
        SearchState::Sibling(0)
    } else {
        at_project(plan, 0)
    }
}

/// The path that is asked for in `state`; none once the search is over.
pub open spec fn asked(plan: SearchPlan, state: SearchState) -> Option<Seq<char>> {
    match state {
        SearchState::Sibling(i) => Some(plan.siblings@[i as int]@),
        SearchState::Manifest(p) => Some(plan.projects@[p as int].manifest@),
        SearchState::Target(p, t) => Some(plan.projects@[p as int].targets@[t as int]@),
        _ => None,
    }
}

/// The state after the answer `exists` to what was asked for in `state`.
///
/// A sibling or target that exists is the library. After the last sibling
/// the projects follow, from the nearest on. A project whose manifest
/// exists is the one whose targets are asked for: if none of them exists
/// there is no library, whatever stands further up.
pub open spec fn next_state(plan: SearchPlan, state: SearchState, exists: bool) -> SearchState {
    match state {
        SearchState::Sibling(i) => if exists {
            SearchState::FoundSibling(i)
        } else if i + 1 < plan.siblings@.len() {
            SearchState::Sibling((i + 1) as usize)
        } else {
            at_project(plan, 0)
        },
        SearchState::Manifest(p) => if exists {
            if plan.projects@[p as int].targets@.len() > 0 {
                SearchState::Target(p, 0)
            } else {
                SearchState::NotFound
            }
        } else {
            at_project(plan, p + 1)
        },
        SearchState::Target(p, t) => if exists {
            SearchState::FoundTarget(p, t)
        } else if t + 1 < plan.projects@[p as int].targets@.len() {
            SearchState::Target(p, (t + 1) as usize)
        } else {
            SearchState::NotFound
        },
        _ => state,
    }
}

/// The library that a search that stands in `state` has found.
pub open spec fn found(plan: SearchPlan, state: SearchState) -> Option<Seq<char>> {
    match state {
        SearchState::FoundSibling(i) => Some(plan.siblings@[i as int]@),
        SearchState::FoundTarget(p, t) => Some(plan.projects@[p as int].targets@[t as int]@),
        _ => None,
    }
}

/// The number of questions that a search in `state` can still ask.
pub open spec fn questions_left(plan: SearchPlan, state: SearchState) -> int {
    match state {
        SearchState::Sibling(i) => plan.siblings@.len() - i + 2 * plan.projects@.len() + longest(
            plan.projects@,
            plan.projects@.len() as int,
        ),
        SearchState::Manifest(p) => 2 * (plan.projects@.len() - p) + longest(
            plan.projects@,
            plan.projects@.len() as int,
        ),
        SearchState::Target(p, t) => plan.projects@[p as int].targets@.len() - t,
        _ => 0,
    }
}

/// The largest number of targets among the first `end` of `projects`.
pub open spec fn longest(projects: Seq<ProjectPlan>, end: int) -> int
    decreases end,
{
    if end <= 0 {
        0
    } else if projects[end - 1].targets@.len() > longest(projects, end - 1) {
        projects[end - 1].targets@.len() as int
    } else {
        longest(projects, end - 1)
    }
}

/// No project has more targets than the longest.
proof fn lemma_longest(projects: Seq<ProjectPlan>, end: int, p: int)
    requires
        0 <= p < end <= projects.len(),
    ensures
        projects[p].targets@.len() <= longest(projects, end),
        longest(projects, end) >= 0,
    decreases end,
{
    if p < end - 1 {
        lemma_longest(projects, end - 1, p);
    } else if end - 1 > 0 {
        lemma_longest(projects, end - 1, 0);
    }
}

/// Every answer brings a search nearer to its end: a search ends.
pub proof fn lemma_search_ends(plan: SearchPlan, state: SearchState, exists: bool)
    requires
        state_of(plan, state),
        asked(plan, state) is Some,
    ensures
        state_of(plan, next_state(plan, state, exists)),
        0 <= questions_left(plan, next_state(plan, state, exists)) < questions_left(plan, state),
{
    let n = plan.projects@.len() as int;
    assert(plan.projects.len() == n);
    assert(plan.siblings.len() == plan.siblings@.len());
    if n > 0 {
        lemma_longest(plan.projects@, n, 0);
    }
    match state {
        SearchState::Manifest(p) => {
            lemma_longest(plan.projects@, n, p as int);
        },
        SearchState::Target(p, _) => {
            assert(plan.projects@[p as int].targets.len() == plan.projects@[p as int].targets@.len());
        },
        _ => {},
    }
}

/// A search for the library of an interface definition: it asks for one
/// path after the other, and is told whether the path exists.
#[derive(Debug, PartialEq, Eq)]
pub struct LibrarySearch {
    plan: SearchPlan,
    state: SearchState,
}

impl LibrarySearch {
    /// The plan that the search follows.
    pub closed spec fn plan(&self) -> SearchPlan {
        self.plan
    }

    /// Where the search stands.
    pub closed spec fn state(&self) -> SearchState {
        self.state
    }

    /// The places of the state are places of the plan.
    #[verifier::type_invariant]
    spec fn consistent(self) -> bool {
        state_of(self.plan, self.state)
    }

    /// A search by `plan`, at its beginning.
    pub fn new(plan: SearchPlan) -> (search: Self)
        ensures
            search.plan() == plan,
            search.state() == first_state(plan),
    {
        let state = if plan.siblings.len() > 0 {
            SearchState::Sibling(0)
        } else if plan.projects.len() > 0 {
            SearchState::Manifest(0)
        } else {
            SearchState::NotFound
        };
        LibrarySearch { plan, state }
    }

    /// The path that the search asks for next; none once it is over.
    pub fn next_probe(&self) -> (path: Option<String>)
        ensures
            match path {
                Some(p) => asked(self.plan(), self.state()) == Some(p@),
                None => asked(self.plan(), self.state()) is None,
            },
    {
        proof {
            use_type_invariant(self);
        }
        match self.state {
            SearchState::Sibling(i) => Some(self.plan.siblings[i].clone()),
            SearchState::Manifest(p) => Some(self.plan.projects[p].manifest.clone()),
            SearchState::Target(p, t) => Some(self.plan.projects[p].targets[t].clone()),
            _ => None,
        }
    }

    /// Takes the answer to what was asked for: whether the path exists.
    pub fn answer(&mut self, exists: bool)
        ensures
            final(self).plan() == old(self).plan(),
            final(self).state() == next_state(old(self).plan(), old(self).state(), exists),
    {
        proof {
            use_type_invariant(&*self);
        }
        let projects = self.plan.projects.len();
        let siblings = self.plan.siblings.len();
        let targets = match self.state {
            SearchState::Target(p, _) => self.plan.projects[p].targets.len(),
            _ => 0,
        };
        self.state = match self.state {
            SearchState::Sibling(i) => if exists {
                SearchState::FoundSibling(i)
            } else if i + 1 < siblings {
                SearchState::Sibling(i + 1)
            } else if projects > 0 {
                SearchState::Manifest(0)
            } else {
                SearchState::NotFound
            },
            SearchState::Manifest(p) => if exists {
                if self.plan.projects[p].targets.len() > 0 {
                    SearchState::Target(p, 0)
                } else {
                    SearchState::NotFound
                }
            } else if p + 1 < projects {
                SearchState::Manifest(p + 1)
            } else {
                SearchState::NotFound
            },
            SearchState::Target(p, t) => if exists {
                SearchState::FoundTarget(p, t)
            } else if t + 1 < targets {
                SearchState::Target(p, t + 1)
            } else {
                SearchState::NotFound
            },
            state => state,
        };
    }

    /// The library that the search has found, if it has found one.
    pub fn library(&self) -> (path: Option<String>)
        ensures
            match path {
                Some(p) => found(self.plan(), self.state()) == Some(p@),
                None => found(self.plan(), self.state()) is None,
            },
    {
        proof {
            use_type_invariant(self);
        }
        match self.state {
            SearchState::FoundSibling(i) => Some(self.plan.siblings[i].clone()),
            SearchState::FoundTarget(p, t) => Some(self.plan.projects[p].targets[t].clone()),
            _ => None,
        }
    }
}

} // verus!
