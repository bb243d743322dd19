//! Running a command over stacked container layers: which layers, and the
//! Bubblewrap arguments that mount and lock them.
use vstd::prelude::*;
use crate::lists::{texts, dedup, contains_string};
use crate::manifest::{ImageManifest, digests, layer_digests};
use crate::text::{copy_string, decimal, decimal_string};

verus! {

/// Why a run request was refused.
#[derive(Debug, Clone)]
pub enum RunError {
    /// No container was named.
    NoContainers,
    /// No command was given.
    EmptyCommand,
    /// The containers have no layers between them.
    NoLayers,
    /// A layer is not extracted.
    MissingLayer(String),
}

/// The abstract value of a [`RunError`].
pub ghost enum RunErrorView {
    NoContainers,
    EmptyCommand,
    NoLayers,
    MissingLayer(Seq<char>),
}

impl View for RunError {
    type V = RunErrorView;

    open spec fn view(&self) -> RunErrorView {
        match self {
            RunError::NoContainers => RunErrorView::NoContainers,
            RunError::EmptyCommand => RunErrorView::EmptyCommand,
            RunError::NoLayers => RunErrorView::NoLayers,
            RunError::MissingLayer(d) => RunErrorView::MissingLayer(d@),
        }
    }
}

/// The message of a refused run.
pub open spec fn run_error_message(e: RunErrorView) -> Seq<char> {
    match e {
        RunErrorView::NoContainers => "at least one container required"@,
        RunErrorView::EmptyCommand => "command cannot be empty"@,
        RunErrorView::NoLayers => "selected containers have no layers"@,
        RunErrorView::MissingLayer(d) => "layer "@ + d + " is missing; install the image first"@,
    }
}

impl RunError {
    /// The message shown for this error.
    pub fn to_string(&self) -> (s: String)
        ensures
            s@ == run_error_message(self@),
    {
        match self {
            RunError::NoContainers => "at least one container required".to_owned(),
            RunError::EmptyCommand => "command cannot be empty".to_owned(),
            RunError::NoLayers => "selected containers have no layers".to_owned(),
            RunError::MissingLayer(d) => {
                let mut s = "layer ".to_owned();
                s.push_str(d.as_str());
                s.push_str(" is missing; install the image first");
                s
            },
        }
    }
}

/// A run needs at least one container and a command.
pub fn check_run_request(containers: &Vec<String>, command: &Vec<String>) -> (r: Result<(), RunError>)
    ensures
        containers@.len() == 0 ==> (r matches Err(e) && e@ == RunErrorView::NoContainers),
        containers@.len() > 0 && command@.len() == 0 ==> (r matches Err(e) && e@ == RunErrorView::EmptyCommand),
        containers@.len() > 0 && command@.len() > 0 ==> r is Ok,
{
    if containers.len() == 0 {
        return Err(RunError::NoContainers);
    }
    if command.len() == 0 {
        return Err(RunError::EmptyCommand);
    }
    Ok(())
}

/// The layer digests of manifests, one manifest after the other, each
/// bottom first.
pub open spec fn concat_layers(ms: Seq<ImageManifest>) -> Seq<Seq<char>>
    decreases ms.len(),
{
    if ms.len() == 0 {
        Seq::empty()
    } else {
        concat_layers(ms.drop_last()) + digests(ms.last().layers@)
    }
}

/// The layers to stack for containers given in order: every layer of every
/// manifest, in order, a layer that recurs kept at its first place only
/// (overlay layers must not repeat).
pub open spec fn stacked_layers(ms: Seq<ImageManifest>) -> Seq<Seq<char>> {
    dedup(concat_layers(ms))
}

/// Stacks the layers of containers' manifests, later containers above
/// earlier ones, each layer once.
pub fn stack_layers(manifests: &Vec<ImageManifest>) -> (r: Vec<String>)
    ensures
        texts(r@) == stacked_layers(manifests@),
{
    let mut r: Vec<String> = Vec::new();
    let mut i: usize = 0;
    while i < manifests.len()
        invariant
            i <= manifests@.len(),
            texts(r@) == dedup(concat_layers(manifests@.take(i as int))),
        decreases manifests@.len() - i,
    {
        let layers = layer_digests(&manifests[i]);
        let ghost before = concat_layers(manifests@.take(i as int));
        let ghost ls = texts(layers@);
        assert(manifests@.take(i + 1).drop_last() == manifests@.take(i as int));
        assert(concat_layers(manifests@.take(i + 1)) == before + ls);
        let mut j: usize = 0;
        while j < layers.len()
            invariant
                j <= layers@.len(),
                ls == texts(layers@),
                texts(r@) == dedup(before + ls.take(j as int)),
            decreases layers@.len() - j,
        {
            assert((before + ls.take(j + 1)).drop_last() == before + ls.take(j as int));
            assert((before + ls.take(j + 1)).last() == layers@[j as int]@);
            if !contains_string(&r, &layers[j]) {
                let ghost old_r = r@;
                r.push(copy_string(&layers[j]));
                assert(texts(r@) == texts(old_r).push(layers@[j as int]@));
            }
            j = j + 1;
        }
        assert(ls.take(j as int) == ls);
        i = i + 1;
    }
    assert(manifests@.take(i as int) == manifests@);
    r
}

/// The layer digests of manifests are exactly the digests of their layers.
pub proof fn lemma_concat_layers(ms: Seq<ImageManifest>)
    ensures
        forall|i: int, j: int|
            0 <= i < ms.len() && 0 <= j < ms[i].layers@.len() ==> concat_layers(ms).contains(
                #[trigger] ms[i].layers@[j].digest@,
            ),
        forall|x: Seq<char>|
            concat_layers(ms).contains(x) ==> exists|i: int, j: int|
                0 <= i < ms.len() && 0 <= j < ms[i].layers@.len() && #[trigger] ms[i].layers@[j].digest@ == x,
    decreases ms.len(),
{
    if ms.len() > 0 {
        let rest = ms.drop_last();
        lemma_concat_layers(rest);
        let a = concat_layers(rest);
        let b = digests(ms.last().layers@);
        assert(concat_layers(ms) == a + b);
        assert forall|i: int, j: int|
            0 <= i < ms.len() && 0 <= j < ms[i].layers@.len() implies concat_layers(ms).contains(
                #[trigger] ms[i].layers@[j].digest@,
            ) by {
            if i < ms.len() - 1 {
                assert(rest[i] == ms[i]);
                assert(a.contains(rest[i].layers@[j].digest@));
                let k = choose|k: int| 0 <= k < a.len() && a[k] == rest[i].layers@[j].digest@;
                assert((a + b)[k] == a[k]);
            } else {
                assert(b[j] == ms[i].layers@[j].digest@);
                assert((a + b)[a.len() + j] == b[j]);
            }
        }
        assert forall|x: Seq<char>| concat_layers(ms).contains(x) implies exists|i: int, j: int|
            0 <= i < ms.len() && 0 <= j < ms[i].layers@.len() && #[trigger] ms[i].layers@[j].digest@ == x by {
            let k = choose|k: int| 0 <= k < (a + b).len() && (a + b)[k] == x;
            if k < a.len() {
                assert(a[k] == x);
                assert(a.contains(x));
                let (i, j) = choose|i: int, j: int|
                    0 <= i < rest.len() && 0 <= j < rest[i].layers@.len() && #[trigger] rest[i].layers@[j].digest@ == x;
                assert(ms[i] == rest[i]);
            } else {
                let j = k - a.len();
                assert(b[j] == x);
                assert(ms[ms.len() - 1].layers@[j].digest@ == x);
            }
        }
    }
}

/// The stacked layers hold every layer of every container once, and no
/// other layer.
pub proof fn lemma_stacked_layers(ms: Seq<ImageManifest>)
    ensures
        stacked_layers(ms).no_duplicates(),
        forall|i: int, j: int|
            0 <= i < ms.len() && 0 <= j < ms[i].layers@.len() ==> stacked_layers(ms).contains(
                #[trigger] ms[i].layers@[j].digest@,
            ),
        forall|x: Seq<char>|
            stacked_layers(ms).contains(x) ==> exists|i: int, j: int|
                0 <= i < ms.len() && 0 <= j < ms[i].layers@.len() && #[trigger] ms[i].layers@[j].digest@ == x,
{
    lemma_concat_layers(ms);
    crate::lists::lemma_dedup(concat_layers(ms));
    assert forall|x: Seq<char>| stacked_layers(ms).contains(x) implies exists|i: int, j: int|
        0 <= i < ms.len() && 0 <= j < ms[i].layers@.len() && #[trigger] ms[i].layers@[j].digest@ == x by {
        assert(concat_layers(ms).contains(x));
    }
}

/// The directory inside the sandbox that holds the layer locks.
pub open spec fn locks_dir() -> Seq<char> {
    "/tmp/.layer_locks"@
}

/// Where the lock of the `i`-th layer is mounted inside the sandbox.
pub open spec fn lock_mount(i: nat) -> Seq<char> {
    locks_dir() + "/"@ + decimal(i)
}

/// The arguments that mount the layers as the root: one layer read-only
/// bound, several stacked as a read-only overlay.
pub open spec fn root_args(paths: Seq<Seq<char>>) -> Seq<Seq<char>> {
    if paths.len() == 1 {
        seq!["--ro-bind"@, paths[0], "/"@]
    } else {
        overlay_args(paths) + seq!["--ro-overlay"@, "/"@]
    }
}

/// `--overlay-src` for each layer, bottom first.
pub open spec fn overlay_args(paths: Seq<Seq<char>>) -> Seq<Seq<char>>
    decreases paths.len(),
{
    if paths.len() == 0 {
        Seq::empty()
    } else {
        overlay_args(paths.drop_last()) + seq!["--overlay-src"@, paths.last()]
    }
}

/// For each layer, bind its lock file read-only into the sandbox and hold a
/// lock on it there.
pub open spec fn lock_args(locks: Seq<Seq<char>>) -> Seq<Seq<char>>
    decreases locks.len(),
{
    if locks.len() == 0 {
        Seq::empty()
    } else {
        let i = (locks.len() - 1) as nat;
        lock_args(locks.drop_last()) + seq![
            "--ro-bind"@,
            locks.last(),
            lock_mount(i),
            "--lock-file"@,
            lock_mount(i),
        ]
    }
}

/// The fixed isolation arguments before the root mount.
pub open spec fn isolation_args() -> Seq<Seq<char>> {
    seq!["--clearenv"@, "--unshare-all"@]
}

/// The fixed mounts after the root mount.
pub open spec fn system_mount_args() -> Seq<Seq<char>> {
    seq!["--proc"@, "/proc"@, "--dev"@, "/dev"@, "--tmpfs"@, "/tmp"@, "--dir"@, locks_dir()]
}

/// `i` is the first layer that is not extracted.
pub open spec fn is_first_missing(paths: Seq<Option<Seq<char>>>, i: int) -> bool {
    &&& 0 <= i < paths.len()
    &&& paths[i] is None
    &&& forall|j: int| 0 <= j < i ==> paths[j] is Some
}

/// The paths of layers that are all extracted.
pub open spec fn unwrap_paths(paths: Seq<Option<Seq<char>>>) -> Seq<Seq<char>> {
    paths.map_values(|p: Option<Seq<char>>| p->Some_0)
}

/// The Bubblewrap arguments that run `command` over the layers, given the
/// host path of each extracted layer and of each layer's lock file.
pub open spec fn bwrap_args_spec(
    layers: Seq<Seq<char>>,
    paths: Seq<Option<Seq<char>>>,
    locks: Seq<Seq<char>>,
    command: Seq<Seq<char>>,
) -> Result<Seq<Seq<char>>, RunErrorView> {
    if layers.len() == 0 {
        Err(RunErrorView::NoLayers)
    } else if exists|i: int| is_first_missing(paths, i) {
        Err(RunErrorView::MissingLayer(layers[choose|i: int| is_first_missing(paths, i)]))
    } else {
        Ok(
            isolation_args() + root_args(unwrap_paths(paths)) + system_mount_args() + lock_args(locks)
                + command,
        )
    }
}

/// Every sandbox starts with a cleared environment and unshared namespaces,
/// and the user's arguments follow everything else, unchanged.
pub proof fn lemma_sandbox_defaults(
    layers: Seq<Seq<char>>,
    paths: Seq<Option<Seq<char>>>,
    locks: Seq<Seq<char>>,
    command: Seq<Seq<char>>,
)
    requires
        bwrap_args_spec(layers, paths, locks, command) is Ok,
    ensures
        ({
            let a = bwrap_args_spec(layers, paths, locks, command)->Ok_0;
            &&& a.take(2) == seq!["--clearenv"@, "--unshare-all"@]
            &&& a.skip(a.len() - command.len()) == command
        }),
{
    let a = bwrap_args_spec(layers, paths, locks, command)->Ok_0;
    let rest = root_args(unwrap_paths(paths)) + system_mount_args() + lock_args(locks);
    assert(a == isolation_args() + rest + command);
    assert(a.take(2) == isolation_args());
    assert(a.skip(a.len() - command.len()) == command);
}

/// `--overlay-src` and a layer's path, pair by pair, bottom first.
proof fn lemma_overlay_args(paths: Seq<Seq<char>>)
    ensures
        overlay_args(paths).len() == 2 * paths.len(),
        forall|k: int| 0 <= k < paths.len() ==> #[trigger] overlay_args(paths)[2 * k] === "--overlay-src"@,
        forall|k: int| 0 <= k < paths.len() ==> #[trigger] overlay_args(paths)[2 * k + 1] === paths[k],
    decreases paths.len(),
{
    if paths.len() > 0 {
        let t = paths.drop_last();
        lemma_overlay_args(t);
        let o = overlay_args(paths);
        let ot = overlay_args(t);
        assert(o =~= ot + seq!["--overlay-src"@, paths.last()]);
        assert forall|k: int| 0 <= k < paths.len() implies #[trigger] o[2 * k] === "--overlay-src"@ by {
            if k < t.len() {
                assert(ot[2 * k] === "--overlay-src"@);
                assert(o[2 * k] === ot[2 * k]);
            }
        }
        assert forall|k: int| 0 <= k < paths.len() implies #[trigger] o[2 * k + 1] === paths[k] by {
            if k < t.len() {
                assert(ot[2 * k + 1] === t[k]);
                assert(o[2 * k + 1] === ot[2 * k + 1]);
            }
        }
    }
}

/// A layer without a path means there is a first such layer.
proof fn lemma_first_missing_exists(paths: Seq<Option<Seq<char>>>, k: int)
    requires
        0 <= k < paths.len(),
        paths[k] is None,
    ensures
        exists|i: int| is_first_missing(paths, i),
    decreases k,
{
    if forall|j: int| 0 <= j < k ==> paths[j] is Some {
        assert(is_first_missing(paths, k));
    } else {
        let j = choose|j: int| 0 <= j < k && !(paths[j] is Some);
        lemma_first_missing_exists(paths, j);
    }
}

/// The stacked layers are the root of the sandbox, read-only and right after
/// the isolation arguments: a single layer is bound at `/`; two or more are
/// listed as `--overlay-src` with their paths, bottom first, followed
/// directly by `--ro-overlay /`, so that all of them together are `/`.
pub proof fn lemma_layers_mounted_at_root(
    layers: Seq<Seq<char>>,
    paths: Seq<Option<Seq<char>>>,
    locks: Seq<Seq<char>>,
    command: Seq<Seq<char>>,
)
    requires
        bwrap_args_spec(layers, paths, locks, command) is Ok,
        paths.len() == layers.len(),
    ensures
        ({
            let a = bwrap_args_spec(layers, paths, locks, command)->Ok_0;
            let n = layers.len() as int;
            &&& n >= 1
            &&& forall|k: int| 0 <= k < n ==> paths[k] is Some
            &&& n == 1 ==> a[2] === "--ro-bind"@ && paths[0] === Some(a[3]) && a[4] === "/"@
            &&& n >= 2 ==> {
                &&& forall|k: int| 0 <= k < n ==> a[2 + 2 * k] === "--overlay-src"@ && paths[k] === Some(a[3 + 2 * k])
                &&& a[2 + 2 * n] === "--ro-overlay"@
                &&& a[3 + 2 * n] === "/"@
            }
        }),
{
    let a = bwrap_args_spec(layers, paths, locks, command)->Ok_0;
    let n = layers.len() as int;
    assert forall|k: int| 0 <= k < n implies paths[k] is Some by {
        if paths[k] is None {
            lemma_first_missing_exists(paths, k);
        }
    }
    let p = unwrap_paths(paths);
    let root = root_args(p);
    let rest = system_mount_args() + lock_args(locks) + command;
    assert(a == isolation_args() + root + rest) by {
        assert(isolation_args() + root + system_mount_args() + lock_args(locks) + command
            == isolation_args() + root + (system_mount_args() + lock_args(locks) + command));
    }
    assert forall|j: int| 0 <= j < root.len() implies a[2 + j] == root[j] by {}
    if n == 1 {
        assert(paths[0] is Some);
        assert(root[1] == p[0]);
        assert(a[3] == root[1]);
        assert(a[4] == root[2]);
    } else {
        lemma_overlay_args(p);
        assert(root.len() == 2 * n + 2);
        assert forall|k: int| 0 <= k < n implies a[2 + 2 * k] === "--overlay-src"@ && paths[k] == Some(
            a[3 + 2 * k],
        ) by {
            assert(paths[k] is Some);
            assert(p[k] == paths[k]->Some_0);
            assert(a[2 + 2 * k] == root[2 * k]);
            assert(a[2 + (2 * k + 1)] == root[2 * k + 1]);
            assert(overlay_args(p)[2 * k] === "--overlay-src"@);
            assert(overlay_args(p)[2 * k + 1] === p[k]);
        }
        assert(a[2 + 2 * n] == root[2 * n]);
        assert(a[2 + (2 * n + 1)] == root[2 * n + 1]);
    }
}

/// The texts of a list of optional strings.
pub open spec fn option_texts(v: Seq<Option<String>>) -> Seq<Option<Seq<char>>> {
    v.map_values(|o: Option<String>| match o {
        Some(s) => Some(s@),
        None => None,
    })
}

fn push_literal(args: &mut Vec<String>, s: &str)
    ensures
        texts(final(args)@) == texts(old(args)@).push(s@),
{
    args.push(s.to_owned());
    assert(texts(args@) =~= texts(old(args)@).push(s@));
}

fn push_copy(args: &mut Vec<String>, s: &String)
    ensures
        texts(final(args)@) == texts(old(args)@).push(s@),
{
    args.push(copy_string(s));
    assert(texts(args@) =~= texts(old(args)@).push(s@));
}

fn first_missing(layer_paths: &Vec<Option<String>>) -> (r: Option<usize>)
    ensures
        match r {
            Some(k) => is_first_missing(option_texts(layer_paths@), k as int),
            None => {
                &&& !exists|m: int| is_first_missing(option_texts(layer_paths@), m)
                &&& forall|j: int| 0 <= j < layer_paths@.len() ==> option_texts(layer_paths@)[j] is Some
            },
        },
{
    let ghost paths = option_texts(layer_paths@);
    let mut k: usize = 0;
    while k < layer_paths.len()
        invariant
            k <= layer_paths@.len(),
            paths == option_texts(layer_paths@),
            forall|j: int| 0 <= j < k ==> paths[j] is Some,
        decreases layer_paths@.len() - k,
    {
        if layer_paths[k].is_none() {
            assert(is_first_missing(paths, k as int));
            return Some(k);
        }
        k = k + 1;
    }
    assert forall|m: int| !is_first_missing(paths, m) by {
        if 0 <= m < paths.len() {
            assert(paths[m] is Some);
        }
    }
    None
}

fn push_root_args(args: &mut Vec<String>, layer_paths: &Vec<Option<String>>)
    requires
        layer_paths@.len() > 0,
        forall|j: int| 0 <= j < layer_paths@.len() ==> option_texts(layer_paths@)[j] is Some,
    ensures
        texts(final(args)@) == texts(old(args)@) + root_args(unwrap_paths(option_texts(layer_paths@))),
{
    let ghost paths = option_texts(layer_paths@);
    let ghost ps = unwrap_paths(paths);
    let ghost start = texts(args@);
    let n = layer_paths.len();
    if n == 1 {
        match &layer_paths[0] {
            Some(p) => {
                push_literal(args, "--ro-bind");
                push_copy(args, p);
                push_literal(args, "/");
            },
            None => {},
        }
        assert(texts(args@) =~= start + root_args(ps));
    } else {
        let mut i: usize = 0;
        while i < n
            invariant
                i <= n,
                n == layer_paths@.len(),
                paths == option_texts(layer_paths@),
                ps == unwrap_paths(paths),
                forall|j: int| 0 <= j < n ==> paths[j] is Some,
                texts(args@) == start + overlay_args(ps.take(i as int)),
            decreases n - i,
        {
            assert(ps.take(i + 1).drop_last() == ps.take(i as int));
            match &layer_paths[i] {
                Some(p) => {
                    assert(ps[i as int] == p@);
                    push_literal(args, "--overlay-src");
                    push_copy(args, p);
                },
                None => {},
            }
            assert(texts(args@) =~= start + overlay_args(ps.take(i + 1)));
            i = i + 1;
        }
        assert(ps.take(i as int) == ps);
        push_literal(args, "--ro-overlay");
        push_literal(args, "/");
        assert(texts(args@) =~= start + root_args(ps));
    }
}

fn push_system_mounts(args: &mut Vec<String>)
    ensures
        texts(final(args)@) == texts(old(args)@) + system_mount_args(),
{
    push_literal(args, "--proc");
    push_literal(args, "/proc");
    push_literal(args, "--dev");
    push_literal(args, "/dev");
    push_literal(args, "--tmpfs");
    push_literal(args, "/tmp");
    push_literal(args, "--dir");
    push_literal(args, "/tmp/.layer_locks");
    assert(texts(args@) =~= texts(old(args)@) + system_mount_args());
}

fn push_lock_args(args: &mut Vec<String>, lock_paths: &Vec<String>)
    ensures
        texts(final(args)@) == texts(old(args)@) + lock_args(texts(lock_paths@)),
{
    let ghost start = texts(args@);
    let ghost ls = texts(lock_paths@);
    let mut i: usize = 0;
    while i < lock_paths.len()
        invariant
            i <= lock_paths@.len(),
            ls == texts(lock_paths@),
            texts(args@) == start + lock_args(ls.take(i as int)),
        decreases lock_paths@.len() - i,
    {
        assert(ls.take(i + 1).drop_last() == ls.take(i as int));
        let mut mount = "/tmp/.layer_locks/".to_owned();
        mount.push_str(decimal_string(i).as_str());
        assert(mount@ =~= lock_mount(i as nat)) by {
            reveal_strlit("/tmp/.layer_locks/");
            reveal_strlit("/tmp/.layer_locks");
            reveal_strlit("/");
        }
        push_literal(args, "--ro-bind");
        push_copy(args, &lock_paths[i]);
        push_copy(args, &mount);
        push_literal(args, "--lock-file");
        push_copy(args, &mount);
        assert(texts(args@) =~= start + lock_args(ls.take(i + 1)));
        i = i + 1;
    }
    assert(ls.take(i as int) == ls);
}

fn push_all(args: &mut Vec<String>, items: &Vec<String>)
    ensures
        texts(final(args)@) == texts(old(args)@) + texts(items@),
{
    let ghost start = texts(args@);
    let mut c: usize = 0;
    while c < items.len()
        invariant
            c <= items@.len(),
            texts(args@) == start + texts(items@).take(c as int),
        decreases items@.len() - c,
    {
        push_copy(args, &items[c]);
        assert(texts(args@) =~= start + texts(items@).take(c + 1));
        c = c + 1;
    }
    assert(texts(items@).take(c as int) == texts(items@));
}

/// Builds the Bubblewrap arguments that run `command` over the stacked
/// layers.
pub fn bwrap_arguments(
    layers: &Vec<String>,
    layer_paths: &Vec<Option<String>>,
    lock_paths: &Vec<String>,
    command: &Vec<String>,
) -> (r: Result<Vec<String>, RunError>)
    requires
        layer_paths@.len() == layers@.len(),
        lock_paths@.len() == layers@.len(),
    ensures
        match (r, bwrap_args_spec(texts(layers@), option_texts(layer_paths@), texts(lock_paths@), texts(command@))) {
            (Ok(a), Ok(b)) => texts(a@) == b,
            (Err(e), Err(f)) => e@ == f,
            _ => false,
        },
{
    let ghost paths = option_texts(layer_paths@);
    if layers.len() == 0 {
        return Err(RunError::NoLayers);
    }
    match first_missing(layer_paths) {
        Some(k) => {
            proof {
                let m = choose|m: int| is_first_missing(paths, m);
                assert(m == k);
            }
            return Err(RunError::MissingLayer(copy_string(&layers[k])));
        },
        None => {},
    }
    let mut args: Vec<String> = Vec::new();
    push_literal(&mut args, "--clearenv");
    push_literal(&mut args, "--unshare-all");
    assert(texts(args@) =~= isolation_args());
    push_root_args(&mut args, layer_paths);
    push_system_mounts(&mut args);
    push_lock_args(&mut args, lock_paths);
    push_all(&mut args, command);
    Ok(args)
}

} // verus!
