//! Where things live in the storage directory.
//!
//! A path is modelled as its list of components, as `std::path::Path::components`
//! yields them (`/` stands for the root). A name joined onto a path is one
//! component.
use vstd::prelude::*;
use crate::lists::texts;
use crate::text::copy_string;

verus! {

/// A path as its components.
#[derive(Debug, Clone)]
pub struct PathModel {
    pub components: Vec<String>,
}

impl View for PathModel {
    type V = Seq<Seq<char>>;

    open spec fn view(&self) -> Seq<Seq<char>> {
        texts(self.components@)
    }
}

/// Whether a component is an ordinary name: not the root, `.` or `..`.
pub open spec fn is_normal(c: Seq<char>) -> bool {
    c != "/"@ && c != "."@ && c != ".."@
}

/// The final component of a path when it is an ordinary name, as
/// `Path::file_name` gives it.
pub open spec fn file_name_of(p: Seq<Seq<char>>) -> Option<Seq<char>> {
    if p.len() > 0 && is_normal(p.last()) {
        Some(p.last())
    } else {
        None
    }
}

/// The path without its final component, as `Path::parent` gives it: none
/// for the empty path and for the root.
pub open spec fn parent_of(p: Seq<Seq<char>>) -> Option<Seq<Seq<char>>> {
    if p.len() == 0 || p.last() == "/"@ {
        None
    } else {
        Some(p.drop_last())
    }
}

fn copy_components(v: &Vec<String>) -> (r: Vec<String>)
    ensures
        texts(r@) == texts(v@),
{
    let mut r: Vec<String> = Vec::new();
    let mut i: usize = 0;
    while i < v.len()
        invariant
            i <= v@.len(),
            texts(r@) == texts(v@).take(i as int),
        decreases v@.len() - i,
    {
        let ghost before = r@;
        r.push(copy_string(&v[i]));
        assert(texts(r@) =~= texts(before).push(v@[i as int]@));
        assert(texts(v@).take(i + 1) =~= texts(v@).take(i as int).push(v@[i as int]@));
        i = i + 1;
    }
    assert(texts(v@).take(i as int) == texts(v@));
    r
}

impl PathModel {
    /// This path with one more component.
    pub fn join(&self, name: &str) -> (p: PathModel)
        ensures
            p@ == self@.push(name@),
    {
        let mut components = copy_components(&self.components);
        components.push(name.to_owned());
        assert(texts(components@) =~= self@.push(name@));
        PathModel { components }
    }

    /// The final component when it is an ordinary name.
    pub fn file_name(&self) -> (r: Option<String>)
        ensures
            match r {
                Some(s) => file_name_of(self@) == Some(s@),
                None => file_name_of(self@) is None,
            },
    {
        let n = self.components.len();
        if n == 0 {
            return None;
        }
        let last = &self.components[n - 1];
        let root = "/".to_owned();
        let here = ".".to_owned();
        let up = "..".to_owned();
        if *last == root || *last == here || *last == up {
            None
        } else {
            Some(copy_string(last))
        }
    }

    /// The path without its final component.
    pub fn parent(&self) -> (r: Option<PathModel>)
        ensures
            match r {
                Some(p) => parent_of(self@) == Some(p@),
                None => parent_of(self@) is None,
            },
    {
        let n = self.components.len();
        if n == 0 {
            return None;
        }
        let root = "/".to_owned();
        if self.components[n - 1] == root {
            return None;
        }
        let mut components = copy_components(&self.components);
        components.pop();
        assert(texts(components@) =~= self@.drop_last());
        Some(PathModel { components })
    }
}

/// How a storage directory is shared between processes.
#[derive(Debug, Clone, Copy, PartialEq, Eq)]
pub enum LockMode {
    /// Readers: any number at once.
    Shared,
    /// Writers: alone; the staging area is cleared on entry.
    Exclusive,
}

/// Why a path could not be worked out.
#[derive(Debug, Clone, Copy, PartialEq, Eq)]
pub enum LayoutError {
    /// `HOME` is not set and no other variable names the storage directory.
    HomeNotSet,
    /// A file's output path does not end in a name.
    NoFileName,
    /// A directory's output path does not end in a name.
    NoDirectoryName,
}

/// The message of a layout error.
pub open spec fn layout_error_message(e: LayoutError) -> Seq<char> {
    match e {
        LayoutError::HomeNotSet => "HOME is not set"@,
        LayoutError::NoFileName => "output path does not have a file name"@,
        LayoutError::NoDirectoryName => "output path does not have a directory name"@,
    }
}

impl LayoutError {
    /// The message shown for this error.
    pub fn to_string(&self) -> (s: String)
        ensures
            s@ == layout_error_message(*self),
    {
        match self {
            LayoutError::HomeNotSet => "HOME is not set".to_owned(),
            LayoutError::NoFileName => "output path does not have a file name".to_owned(),
            LayoutError::NoDirectoryName => "output path does not have a directory name".to_owned(),
        }
    }
}

/// The storage directory that the environment selects: `PAKSTAK_STORAGE_PATH`
/// when set and not empty, else `$XDG_DATA_HOME/pakstak` when that is set and
/// not empty, else `$HOME/.local/share/pakstak`.
pub open spec fn storage_path_spec(
    override_path: Option<Seq<Seq<char>>>,
    xdg_data_home: Option<Seq<Seq<char>>>,
    home: Option<Seq<Seq<char>>>,
) -> Result<Seq<Seq<char>>, LayoutError> {
    match override_path {
        Some(p) if p.len() > 0 => Ok(p),
        _ => match xdg_data_home {
            Some(x) if x.len() > 0 => Ok(x.push("pakstak"@)),
            _ => match home {
                Some(h) => Ok(h.push(".local"@).push("share"@).push("pakstak"@)),
                None => Err(LayoutError::HomeNotSet),
            },
        },
    }
}

/// The components of an optional path.
pub open spec fn opt_path_view(p: Option<PathModel>) -> Option<Seq<Seq<char>>> {
    match p {
        Some(p) => Some(p@),
        None => None,
    }
}

/// Chooses the storage directory from the values of `PAKSTAK_STORAGE_PATH`,
/// `XDG_DATA_HOME` and `HOME`.
pub fn storage_path_from_env(
    override_path: Option<PathModel>,
    xdg_data_home: Option<PathModel>,
    home: Option<PathModel>,
) -> (r: Result<PathModel, LayoutError>)
    ensures
        match (r, storage_path_spec(opt_path_view(override_path), opt_path_view(xdg_data_home), opt_path_view(home))) {
            (Ok(p), Ok(q)) => p@ == q,
            (Err(e), Err(f)) => e == f,
            _ => false,
        },
{
    match override_path {
        Some(p) => {
            if p.components.len() > 0 {
                return Ok(p);
            }
        },
        None => {},
    }
    match xdg_data_home {
        Some(x) => {
            if x.components.len() > 0 {
                return Ok(x.join("pakstak"));
            }
        },
        None => {},
    }
    match home {
        Some(h) => Ok(h.join(".local").join("share").join("pakstak")),
        None => Err(LayoutError::HomeNotSet),
    }
}

/// The storage directory and the fixed places inside it.
#[derive(Debug, Clone)]
pub struct Context {
    pub storage_path: PathModel,
    temporary_path: PathModel,
    lock_path: PathModel,
}

impl Context {
    /// The storage directory.
    pub closed spec fn storage(&self) -> Seq<Seq<char>> {
        self.storage_path@
    }

    /// The staging area for writes.
    pub closed spec fn temporary(&self) -> Seq<Seq<char>> {
        self.temporary_path@
    }

    /// The lock file.
    pub closed spec fn lock(&self) -> Seq<Seq<char>> {
        self.lock_path@
    }

    /// A storage directory: writes are staged in `temporary`, access is
    /// serialized by `.lock`.
    pub fn new(storage_path: PathModel) -> (c: Context)
        ensures
            c.storage() == storage_path@,
            c.temporary() == storage_path@.push("temporary"@),
            c.lock() == storage_path@.push(".lock"@),
    {
        let temporary_path = storage_path.join("temporary");
        let lock_path = storage_path.join(".lock");
        Context { storage_path, temporary_path, lock_path }
    }

    /// The staging area for writes.
    pub fn temporary_path(&self) -> (p: PathModel)
        ensures
            p@ == self.temporary(),
    {
        PathModel { components: copy_components(&self.temporary_path.components) }
    }

    /// The lock file.
    pub fn lock_path(&self) -> (p: PathModel)
        ensures
            p@ == self.lock(),
    {
        PathModel { components: copy_components(&self.lock_path.components) }
    }

    /// Where a directory is staged before it is published at `output_path`:
    /// the staging area joined with its name.
    pub fn temporary_directory_for(&self, output_path: &PathModel) -> (r: Result<PathModel, LayoutError>)
        ensures
            match file_name_of(output_path@) {
                Some(name) => r matches Ok(p) && p@ == self.temporary().push(name),
                None => r == Err::<PathModel, LayoutError>(LayoutError::NoDirectoryName),
            },
    {
        match output_path.file_name() {
            Some(name) => Ok(self.temporary_path.join(name.as_str())),
            None => Err(LayoutError::NoDirectoryName),
        }
    }

    /// Where a file is staged before it is moved to `output_path`: the
    /// staging area joined with its name.
    pub fn temporary_file_for(&self, output_path: &PathModel) -> (r: Result<PathModel, LayoutError>)
        ensures
            match file_name_of(output_path@) {
                Some(name) => r matches Ok(p) && p@ == self.temporary().push(name),
                None => r == Err::<PathModel, LayoutError>(LayoutError::NoFileName),
            },
    {
        match output_path.file_name() {
            Some(name) => Ok(self.temporary_path.join(name.as_str())),
            None => Err(LayoutError::NoFileName),
        }
    }

    /// The directory of installed containers.
    pub fn containers_path(&self) -> (p: PathModel)
        ensures
            p@ == self.storage().push("containers"@),
    {
        self.storage_path.join("containers")
    }

    /// The directory of one installed container.
    pub fn container_path(&self, container: &str) -> (p: PathModel)
        ensures
            p@ == self.storage().push("containers"@).push(container@),
    {
        self.containers_path().join(container)
    }

    /// The file that holds a container's manifest digest.
    pub fn manifest_digest_path(&self, container: &str) -> (p: PathModel)
        ensures
            p@ == self.storage().push("containers"@).push(container@).push("manifest_digest"@),
    {
        self.container_path(container).join("manifest_digest")
    }

    /// The file that holds a container's image reference.
    pub fn reference_path(&self, container: &str) -> (p: PathModel)
        ensures
            p@ == self.storage().push("containers"@).push(container@).push("reference.json"@),
    {
        self.container_path(container).join("reference.json")
    }

    /// The directory of stored manifests.
    pub fn manifests_path(&self) -> (p: PathModel)
        ensures
            p@ == self.storage().push("manifests"@),
    {
        self.storage_path.join("manifests")
    }

    /// The file of a stored manifest: its digest followed by `.json`.
    pub fn manifest_path(&self, digest: &str) -> (p: PathModel)
        ensures
            p@ == self.storage().push("manifests"@).push(digest@ + ".json"@),
    {
        let mut name = digest.to_owned();
        name.push_str(".json");
        self.manifests_path().join(name.as_str())
    }

    /// The directory of extracted layers.
    pub fn layers_path(&self) -> (p: PathModel)
        ensures
            p@ == self.storage().push("layers"@),
    {
        self.storage_path.join("layers")
    }

    /// The directory of one extracted layer.
    pub fn layer_path(&self, digest: &str) -> (p: PathModel)
        ensures
            p@ == self.storage().push("layers"@).push(digest@),
    {
        self.layers_path().join(digest)
    }

    /// The directory of layer lock files.
    pub fn layer_locks_path(&self) -> (p: PathModel)
        ensures
            p@ == self.storage().push("locks"@).push("layers"@),
    {
        self.storage_path.join("locks").join("layers")
    }

    /// The lock file of one layer.
    pub fn layer_lock_path(&self, digest: &str) -> (p: PathModel)
        ensures
            p@ == self.storage().push("locks"@).push("layers"@).push(digest@),
    {
        self.layer_locks_path().join(digest)
    }
}

} // verus!
