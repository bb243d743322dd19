//! The text files and names of the storage directory.
use vstd::prelude::*;
use crate::text::chars_of;
use crate::lists::{texts, dedup, dedup_names};

verus! {

/// Why stored data was refused.
#[derive(Debug, Clone)]
pub enum StorageError {
    /// A container's manifest digest file holds only whitespace.
    EmptyManifestDigest,
    /// A container name breaks the naming rule.
    InvalidContainerName(String),
    /// A container of that name is installed already.
    ContainerExists(String),
    /// No container of that name is installed.
    ContainerNotInstalled(String),
}

/// The abstract value of a [`StorageError`].
pub ghost enum StorageErrorView {
    EmptyManifestDigest,
    InvalidContainerName(Seq<char>),
    ContainerExists(Seq<char>),
    ContainerNotInstalled(Seq<char>),
}

impl View for StorageError {
    type V = StorageErrorView;

    open spec fn view(&self) -> StorageErrorView {
        match self {
            StorageError::EmptyManifestDigest => StorageErrorView::EmptyManifestDigest,
            StorageError::InvalidContainerName(n) => StorageErrorView::InvalidContainerName(n@),
            StorageError::ContainerExists(n) => StorageErrorView::ContainerExists(n@),
            StorageError::ContainerNotInstalled(n) => StorageErrorView::ContainerNotInstalled(n@),
        }
    }
}

/// The message of refused stored data.
pub open spec fn storage_error_message(e: StorageErrorView) -> Seq<char> {
    match e {
        StorageErrorView::EmptyManifestDigest => "container manifest digest is empty"@,
        StorageErrorView::InvalidContainerName(n) => "invalid container name `"@ + n
            + "`: it must start with an ASCII letter or number and only contain ASCII letters, numbers, dots, underscores, and dashes"@,
        StorageErrorView::ContainerExists(n) => "container `"@ + n + "` already exists"@,
        StorageErrorView::ContainerNotInstalled(n) => "container `"@ + n + "` is not installed"@,
    }
}

impl StorageError {
    /// The message shown for this error.
    pub fn to_string(&self) -> (s: String)
        ensures
            s@ == storage_error_message(self@),
    {
        match self {
            StorageError::EmptyManifestDigest => "container manifest digest is empty".to_owned(),
            StorageError::InvalidContainerName(n) => {
                let mut s = "invalid container name `".to_owned();
                s.push_str(n.as_str());
                s.push_str("`: it must start with an ASCII letter or number and only contain ASCII letters, numbers, dots, underscores, and dashes");
                s
            },
            StorageError::ContainerExists(n) => {
                let mut s = "container `".to_owned();
                s.push_str(n.as_str());
                s.push_str("` already exists");
                s
            },
            StorageError::ContainerNotInstalled(n) => {
                let mut s = "container `".to_owned();
                s.push_str(n.as_str());
                s.push_str("` is not installed");
                s
            },
        }
    }
}

/// Unicode white space, as `char::is_whitespace` decides it.
pub open spec fn is_white_space(c: char) -> bool {
    ('\u{9}' <= c <= '\u{d}') || c == ' ' || c == '\u{85}' || c == '\u{a0}' || c == '\u{1680}'
        || ('\u{2000}' <= c <= '\u{200a}') || c == '\u{2028}' || c == '\u{2029}' || c == '\u{202f}'
        || c == '\u{205f}' || c == '\u{3000}'
}

fn is_white_space_exec(c: char) -> (r: bool)
    ensures
        r == is_white_space(c),
{
    ('\u{9}' <= c && c <= '\u{d}') || c == ' ' || c == '\u{85}' || c == '\u{a0}' || c == '\u{1680}'
        || ('\u{2000}' <= c && c <= '\u{200a}') || c == '\u{2028}' || c == '\u{2029}' || c == '\u{202f}'
        || c == '\u{205f}' || c == '\u{3000}'
}

/// `s` without leading white space.
pub open spec fn trim_start(s: Seq<char>) -> Seq<char>
    decreases s.len(),
{
    if s.len() > 0 && is_white_space(s[0]) {
        trim_start(s.drop_first())
    } else {
        s
    }
}

/// `s` without trailing white space.
pub open spec fn trim_end(s: Seq<char>) -> Seq<char>
    decreases s.len(),
{
    if s.len() > 0 && is_white_space(s.last()) {
        trim_end(s.drop_last())
    } else {
        s
    }
}

/// `s` without leading and trailing white space, as `str::trim` gives it.
pub open spec fn trim(s: Seq<char>) -> Seq<char> {
    trim_end(trim_start(s))
}

/// `s` without leading and trailing white space.
pub fn trim_chars(s: &str) -> (r: String)
    ensures
        r@ == trim(s@),
{
    let v = chars_of(s);
    let n = v.len();
    let mut lo: usize = 0;
    assert(v@.skip(0) == v@);
    while lo < n && is_white_space_exec(v[lo])
        invariant
            lo <= n == v@.len(),
            trim_start(v@) == trim_start(v@.skip(lo as int)),
        decreases n - lo,
    {
        assert(v@.skip(lo as int).drop_first() == v@.skip(lo + 1));
        lo = lo + 1;
    }
    let ghost front = v@.skip(lo as int);
    assert(trim_start(v@) == front);
    let mut hi: usize = n;
    while hi > lo && is_white_space_exec(v[hi - 1])
        invariant
            lo <= hi <= n == v@.len(),
            front == v@.skip(lo as int),
            trim_end(front) == trim_end(v@.subrange(lo as int, hi as int)),
        decreases hi - lo,
    {
        assert(v@.subrange(lo as int, hi as int).drop_last() == v@.subrange(lo as int, hi - 1));
        hi = hi - 1;
    }
    assert(front == v@.subrange(lo as int, n as int));
    crate::text::string_of(v.as_slice(), lo, hi)
}

/// What a container's manifest digest file holds: its text, trimmed, which
/// must not be empty.
pub fn parse_manifest_digest_file(contents: &str) -> (r: Result<String, StorageError>)
    ensures
        trim(contents@).len() > 0 ==> (r matches Ok(d) && d@ == trim(contents@)),
        trim(contents@).len() == 0 ==> (r matches Err(e) && e@ == StorageErrorView::EmptyManifestDigest),
{
    let d = trim_chars(contents);
    if d.as_str().is_empty() {
        Err(StorageError::EmptyManifestDigest)
    } else {
        Ok(d)
    }
}

/// An ASCII letter or digit.
pub open spec fn is_ascii_alphanumeric(c: char) -> bool {
    ('a' <= c <= 'z') || ('A' <= c <= 'Z') || ('0' <= c <= '9')
}

/// A character allowed in a container name.
pub open spec fn is_name_char(c: char) -> bool {
    is_ascii_alphanumeric(c) || c == '.' || c == '_' || c == '-'
}

/// The naming rule for containers: a first character that is an ASCII
/// letter or number, and only ASCII letters, numbers, dots, underscores and
/// dashes.
pub open spec fn valid_container_name(name: Seq<char>) -> bool {
    &&& name.len() > 0
    &&& is_ascii_alphanumeric(name[0])
    &&& forall|i: int| 0 <= i < name.len() ==> is_name_char(name[i])
}

/// Checks a container name against the naming rule.
pub fn validate_container(name: &str) -> (r: Result<(), StorageError>)
    ensures
        valid_container_name(name@) ==> r is Ok,
        !valid_container_name(name@) ==> (r matches Err(e) && e@ == StorageErrorView::InvalidContainerName(name@)),
{
    let v = chars_of(name);
    if v.len() == 0 {
        return Err(StorageError::InvalidContainerName(name.to_owned()));
    }
    let first = v[0];
    if !(('a' <= first && first <= 'z') || ('A' <= first && first <= 'Z') || ('0' <= first && first <= '9')) {
        return Err(StorageError::InvalidContainerName(name.to_owned()));
    }
    let mut i: usize = 0;
    while i < v.len()
        invariant
            i <= v@.len(),
            v@ == name@,
            forall|j: int| 0 <= j < i ==> is_name_char(v@[j]),
        decreases v@.len() - i,
    {
        let c = v[i];
        if !(('a' <= c && c <= 'z') || ('A' <= c && c <= 'Z') || ('0' <= c && c <= '9') || c == '.' || c == '_'
            || c == '-') {
            return Err(StorageError::InvalidContainerName(name.to_owned()));
        }
        i = i + 1;
    }
    Ok(())
}

/// A new container needs a valid name that no installed container has.
pub fn check_new_container(name: &str, taken: bool) -> (r: Result<(), StorageError>)
    ensures
        !valid_container_name(name@) ==> (r matches Err(e) && e@ == StorageErrorView::InvalidContainerName(name@)),
        valid_container_name(name@) && taken ==> (r matches Err(e) && e@ == StorageErrorView::ContainerExists(name@)),
        valid_container_name(name@) && !taken ==> r is Ok,
{
    validate_container(name)?;
    if taken {
        return Err(StorageError::ContainerExists(name.to_owned()));
    }
    Ok(())
}

/// Working on a container needs an installed container: whether its
/// directory exists decides, whatever the name looks like.
pub fn check_installed(name: &str, installed: bool) -> (r: Result<(), StorageError>)
    ensures
        installed ==> r is Ok,
        !installed ==> (r matches Err(e) && e@ == StorageErrorView::ContainerNotInstalled(name@)),
{
    if !installed {
        return Err(StorageError::ContainerNotInstalled(name.to_owned()));
    }
    Ok(())
}

/// `i` is the first requested name that breaks the naming rule.
pub open spec fn is_first_invalid(names: Seq<Seq<char>>, i: int) -> bool {
    &&& 0 <= i < names.len()
    &&& !valid_container_name(names[i])
    &&& forall|j: int| 0 <= j < i ==> valid_container_name(names[j])
}

/// The containers that an update covers: the requested ones, each once, when
/// any are requested (all must be valid names), else every installed one.
pub open spec fn update_targets_spec(requested: Seq<Seq<char>>, installed: Seq<Seq<char>>) -> Result<
    Seq<Seq<char>>,
    StorageErrorView,
> {
    if exists|i: int| is_first_invalid(requested, i) {
        Err(StorageErrorView::InvalidContainerName(requested[choose|i: int| is_first_invalid(requested, i)]))
    } else if requested.len() == 0 {
        Ok(dedup(installed))
    } else {
        Ok(dedup(requested))
    }
}

/// Works out the containers that an update covers.
pub fn update_targets(requested: &Vec<String>, installed: &Vec<String>) -> (r: Result<Vec<String>, StorageError>)
    ensures
        match (r, update_targets_spec(texts(requested@), texts(installed@))) {
            (Ok(v), Ok(w)) => texts(v@) == w,
            (Err(e), Err(f)) => e@ == f,
            _ => false,
        },
{
    let ghost names = texts(requested@);
    let mut i: usize = 0;
    while i < requested.len()
        invariant
            i <= requested@.len(),
            names == texts(requested@),
            forall|j: int| 0 <= j < i ==> valid_container_name(names[j]),
        decreases requested@.len() - i,
    {
        match validate_container(requested[i].as_str()) {
            Ok(()) => {},
            Err(e) => {
                proof {
                    assert(is_first_invalid(names, i as int));
                    let k = choose|k: int| is_first_invalid(names, k);
                    assert(k == i);
                }
                return Err(e);
            },
        }
        i = i + 1;
    }
    assert(!exists|k: int| is_first_invalid(names, k));
    if requested.len() == 0 {
        Ok(dedup_names(installed))
    } else {
        Ok(dedup_names(requested))
    }
}

/// A valid container name is one ordinary path component: it holds no `/`
/// and is neither `.` nor `..`, so a container's directory is named by it.
pub proof fn lemma_valid_name_is_component(dir: Seq<Seq<char>>, name: Seq<char>)
    requires
        valid_container_name(name),
    ensures
        !name.contains('/'),
        crate::context::is_normal(name),
        crate::context::file_name_of(dir.push(name)) == Some(name),
{
    assert(!name.contains('/')) by {
        if name.contains('/') {
            let i = choose|i: int| 0 <= i < name.len() && name[i] == '/';
            assert(is_name_char(name[i]));
        }
    }
    reveal_strlit("/");
    reveal_strlit(".");
    reveal_strlit("..");
    assert(name != "/"@) by {
        if name == "/"@ {
            assert(name[0] == '/');
        }
    }
    assert(name != "."@) by {
        if name == "."@ {
            assert(name[0] == '.');
        }
    }
    assert(name != ".."@) by {
        if name == ".."@ {
            assert(name[0] == '.');
        }
    }
}

proof fn lemma_first_invalid_exists(names: Seq<Seq<char>>, i: int)
    requires
        0 <= i < names.len(),
        !valid_container_name(names[i]),
    ensures
        exists|k: int| is_first_invalid(names, k),
    decreases i,
{
    if forall|j: int| 0 <= j < i ==> valid_container_name(names[j]) {
        assert(is_first_invalid(names, i));
    } else {
        let j = choose|j: int| 0 <= j < i && !valid_container_name(names[j]);
        lemma_first_invalid_exists(names, j);
    }
}

/// An update covers each container once, and requested containers only
/// under valid names.
pub proof fn lemma_update_targets(requested: Seq<Seq<char>>, installed: Seq<Seq<char>>)
    ensures
        update_targets_spec(requested, installed) matches Ok(t) ==> t.no_duplicates(),
        requested.len() > 0 ==> (update_targets_spec(requested, installed) matches Ok(t) ==> forall|x: Seq<char>|
            #[trigger] t.contains(x) ==> requested.contains(x) && valid_container_name(x)),
{
    crate::lists::lemma_dedup(requested);
    crate::lists::lemma_dedup(installed);
    if update_targets_spec(requested, installed) is Ok && requested.len() > 0 {
        assert forall|x: Seq<char>| #[trigger] dedup(requested).contains(x) implies requested.contains(x)
            && valid_container_name(x) by {
            assert(requested.contains(x));
            let i = choose|i: int| 0 <= i < requested.len() && requested[i] == x;
            if !valid_container_name(x) {
                lemma_first_invalid_exists(requested, i);
            }
        }
    }
}

/// The digest that a stored manifest's file name carries: the name without
/// its `.json` suffix; none for other names.
pub open spec fn manifest_file_digest(name: Seq<char>) -> Option<Seq<char>> {
    if name.len() >= 5 && name.skip(name.len() - 5) == ".json"@ {
        Some(name.take(name.len() - 5))
    } else {
        None
    }
}

/// Reads the digest out of a stored manifest's file name.
pub fn manifest_digest_from_file_name(name: &str) -> (r: Option<String>)
    ensures
        match r {
            Some(d) => manifest_file_digest(name@) == Some(d@),
            None => manifest_file_digest(name@) is None,
        },
{
    let v = chars_of(name);
    let n = v.len();
    if n < 5 {
        return None;
    }
    let suffix = ['.', 'j', 's', 'o', 'n'];
    proof {
        reveal_strlit(".json");
    }
    assert(suffix@ =~= ".json"@);
    assert(v@.subrange(n - 5, n as int) == name@.skip(n - 5));
    if crate::text::chars_equal(v.as_slice(), n - 5, n, &suffix) {
        assert(v@.subrange(0, n - 5) == name@.take(n - 5));
        Some(crate::text::string_of(v.as_slice(), 0, n - 5))
    } else {
        None
    }
}

/// Whether layer content starts with the gzip magic bytes.
pub fn is_gzip(prefix: &[u8]) -> (r: bool)
    ensures
        r == (prefix@.len() >= 2 && prefix@[0] == 0x1f && prefix@[1] == 0x8b),
{
    prefix.len() >= 2 && prefix[0] == 0x1f && prefix[1] == 0x8b
}

/// Whether an installed manifest digest already is the fetched one.
pub fn is_up_to_date(current: &String, fetched: &String) -> (r: bool)
    ensures
        r == (current@ == fetched@),
{
    *current == *fetched
}


/// The digest of a stored manifest is read back from the file name it is
/// stored under.
pub proof fn lemma_manifest_file_name_roundtrip(digest: Seq<char>)
    ensures
        manifest_file_digest(digest + ".json"@) == Some(digest),
{
    reveal_strlit(".json");
    let name = digest + ".json"@;
    assert(name.skip(name.len() - 5) == ".json"@);
    assert(name.take(name.len() - 5) == digest);
}

/// A manifest digest written to a container's digest file is read back, as
/// long as it is not empty and does not start or end with white space.
pub proof fn lemma_manifest_digest_file_roundtrip(digest: Seq<char>)
    requires
        digest.len() > 0,
        !is_white_space(digest[0]),
        !is_white_space(digest.last()),
    ensures
        trim(digest) == digest,
{
    assert(trim_start(digest) == digest);
    assert(trim_end(digest) == digest);
}

} // verus!
