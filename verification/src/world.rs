//! A world: a display name, its metadata, and a map over the storage
//! backend the metadata selects.
//!
//! Opening a world is: take the last path segment as the display name, load
//! `world.mt`, read its `backend` entry, and construct the named backend
//! over the world directory.  Everything up to the backend construction is
//! decided here, by `plan_open`; the file read and the backend construction
//! themselves are I/O and are done by the caller around it.

use vstd::prelude::*;

use crate::map::{MapBackend, WorldMap};
use crate::meta::{spec_lookup, spec_meta, str_eq, MetaError, WorldMeta};

verus! {

/// The maximal suffix of `path` without a separator.
pub open spec fn tail_run(path: Seq<char>) -> Seq<char>
    decreases path.len(),
{
    if path.len() == 0 || path.last() == '/' {
        Seq::empty()
    } else {
        tail_run(path.drop_last()).push(path.last())
    }
}

/// The last non-empty `/`-separated segment of `path`, if any: the world's
/// display name.
pub open spec fn last_segment(path: Seq<char>) -> Option<Seq<char>>
    decreases path.len(),
{
    if path.len() == 0 {
        None
    } else if path.last() == '/' {
        last_segment(path.drop_last())
    } else {
        Some(tail_run(path))
    }
}

/// The storage backend kinds a world's metadata can select.
#[derive(Clone, Copy, Debug, PartialEq, Eq, Structural)]
pub enum BackendKind {
    /// The embedded single-file database, `map.sqlite` in the world
    /// directory; the metadata names it `sqlite3`.
    Sqlite3,
}

/// The metadata value that selects each known backend kind.
pub open spec fn spec_backend_kind(name: Seq<char>) -> Option<BackendKind> {
    if name == "sqlite3"@ {
        Some(BackendKind::Sqlite3)
    } else {
        None
    }
}

/// Why a world could not be opened.
#[derive(Debug)]
pub enum Error {
    /// The metadata file could not be read or parsed.
    Metadata(MetaError),
    /// The path has no final component to name the world by; carries the
    /// path.
    InvalidPath(String),
    /// The metadata's backend entry names no known backend kind; carries
    /// the value found, or the empty string when the entry is missing.
    UnknownBackend(String),
    /// Backend construction failed; carries the backend's description.
    MapError(String),
}

/// Everything `open` decides before any backend I/O: the display name, the
/// parsed metadata, and the backend kind to construct.
#[derive(Debug)]
pub struct OpenPlan {
    /// The world's display name: the last path segment.
    pub name: String,
    /// The parsed contents of `world.mt`.
    pub meta: WorldMeta,
    /// The backend kind the metadata selects.
    pub backend: BackendKind,
}

/// The display name for a world directory path: its last non-empty
/// `/`-separated segment.  Fails with `InvalidPath` when the path has no
/// such segment.
pub fn world_name_from_path(path: &str) -> (r: Result<String, Error>)
    ensures
        match r {
            Ok(name) => last_segment(path@) == Some(name@),
            Err(e) => last_segment(path@) is None && (e matches Error::InvalidPath(p) && p@
                == path@),
        },
{
    let n = path.unicode_len();
    let mut e: usize = n;
    while e > 0
        invariant
            n == path@.len(),
            e <= n,
            forall|k: int| e <= k < n ==> path@[k] == '/',
        ensures
            e <= n,
            n == path@.len(),
            e > 0 ==> path@[e - 1] != '/',
            forall|k: int| e <= k < n ==> path@[k] == '/',
        decreases e,
    {
        if path.get_char(e - 1) != '/' {
            break ;
        }
        e = e - 1;
    }
    proof {
        lemma_last_segment_drop(path@, e as int);
    }
    if e == 0 {
        return Err(Error::InvalidPath(path.to_owned()));
    }
    let mut s: usize = e;
    while s > 0
        invariant
            n == path@.len(),
            s <= e <= n,
            forall|k: int| s <= k < e ==> path@[k] != '/',
        ensures
            s <= e <= n,
            n == path@.len(),
            s > 0 ==> path@[s - 1] == '/',
            forall|k: int| s <= k < e ==> path@[k] != '/',
        decreases s,
    {
        if path.get_char(s - 1) == '/' {
            break ;
        }
        s = s - 1;
    }
    let name = path.substring_char(s, e);
    proof {
        lemma_tail_run_skip(path@.take(e as int), s as int);
        assert(path@.take(e as int).skip(s as int) =~= path@.subrange(s as int, e as int));
    }
    Ok(name.to_owned())
}

/// Stripping trailing separators, then reading the suffix after the last
/// one, is what `last_segment` computes.
proof fn lemma_last_segment_drop(path: Seq<char>, e: int)
    requires
        0 <= e <= path.len(),
        forall|k: int| e <= k < path.len() ==> path[k] == '/',
        e == 0 || path[e - 1] != '/',
    ensures
        e == 0 ==> last_segment(path) is None,
        e > 0 ==> last_segment(path) == Some(tail_run(path.take(e))),
    decreases path.len(),
{
    if path.len() == 0 {
    } else if path.last() == '/' {
        assert(e < path.len());
        lemma_last_segment_drop(path.drop_last(), e);
        if e > 0 {
            assert(path.drop_last().take(e) =~= path.take(e));
        }
    } else {
        assert(e == path.len());
        assert(path.take(e) =~= path);
    }
}

/// The suffix after the last separator is what `tail_run` computes.
proof fn lemma_tail_run_skip(p: Seq<char>, s: int)
    requires
        0 <= s <= p.len(),
        forall|k: int| s <= k < p.len() ==> p[k] != '/',
        s == 0 || p[s - 1] == '/',
    ensures
        tail_run(p) == p.skip(s),
    decreases p.len(),
{
    if p.len() == 0 {
        assert(p.skip(0) =~= Seq::<char>::empty());
    } else if s == p.len() {
        assert(p.last() == '/');
        assert(p.skip(s) =~= Seq::<char>::empty());
    } else {
        assert(p.last() != '/');
        lemma_tail_run_skip(p.drop_last(), s);
        assert(p.drop_last().skip(s).push(p.last()) =~= p.skip(s));
    }
}

/// The backend kind a metadata value selects, or `UnknownBackend` carrying
/// the value when it selects none.
pub fn backend_kind(name: &str) -> (r: Result<BackendKind, Error>)
    ensures
        match r {
            Ok(k) => spec_backend_kind(name@) == Some(k),
            Err(e) => spec_backend_kind(name@) is None && (e matches Error::UnknownBackend(v)
                && v@ == name@),
        },
{
    if str_eq(name, "sqlite3") {
        Ok(BackendKind::Sqlite3)
    } else {
        Err(Error::UnknownBackend(name.to_owned()))
    }
}

/// The backend kind a world's metadata selects: the `backend` entry, held
/// against the known kinds.  A missing entry is reported as an unknown,
/// empty backend name.
pub fn select_backend(meta: &WorldMeta) -> (r: Result<BackendKind, Error>)
    ensures
        match r {
            Ok(k) => spec_lookup(meta@, "backend"@) matches Some(v) && spec_backend_kind(v)
                == Some(k),
            Err(e) => e matches Error::UnknownBackend(v) && (match spec_lookup(
                meta@,
                "backend"@,
            ) {
                Some(value) => v@ == value && spec_backend_kind(value) is None,
                None => v@ == Seq::<char>::empty(),
            }),
        },
{
    match meta.get_str("backend") {
        Some(value) => backend_kind(value),
        None => Err(Error::UnknownBackend(String::new())),
    }
}

/// Decides everything a world open decides short of I/O, from the world
/// directory path and the contents of its `world.mt`: the display name
/// (last path segment, else `InvalidPath`), the parsed metadata (else
/// `Metadata`), and the backend kind its `backend` entry selects (else
/// `UnknownBackend`).
pub fn plan_open(path: &str, meta_text: &str) -> (r: Result<OpenPlan, Error>)
    ensures
        match r {
            Ok(plan) => {
                &&& last_segment(path@) == Some(plan.name@)
                &&& spec_meta(meta_text@) == Ok::<_, Seq<char>>(plan.meta@)
                &&& spec_lookup(plan.meta@, "backend"@) matches Some(v) && spec_backend_kind(v)
                    == Some(plan.backend)
            },
            Err(Error::InvalidPath(p)) => last_segment(path@) is None && p@ == path@,
            Err(Error::Metadata(MetaError::InvalidFormat(l))) => last_segment(path@) is Some
                && spec_meta(meta_text@) == Err::<Seq<(Seq<char>, Seq<char>)>, _>(l@),
            Err(Error::UnknownBackend(v)) => {
                &&& last_segment(path@) is Some
                &&& spec_meta(meta_text@) matches Ok(pairs) && (match spec_lookup(
                    pairs,
                    "backend"@,
                ) {
                    Some(value) => v@ == value && spec_backend_kind(value) is None,
                    None => v@ == Seq::<char>::empty(),
                })
            },
            Err(Error::Metadata(MetaError::Io(_))) => false,
            Err(Error::MapError(_)) => false,
        },
{
    let name = match world_name_from_path(path) {
        Ok(n) => n,
        Err(e) => {
            return Err(e);
        },
    };
    let meta = match WorldMeta::load(meta_text) {
        Ok(m) => m,
        Err(e) => {
            return Err(Error::Metadata(e));
        },
    };
    let backend = match select_backend(&meta) {
        Ok(k) => k,
        Err(e) => {
            return Err(e);
        },
    };
    Ok(OpenPlan { name, meta, backend })
}

/// An opened world: its display name, its metadata, and its map.
pub struct World<B: MapBackend> {
    /// Display name, the last segment of the world directory path.
    pub name: String,
    /// The world's `world.mt` contents.
    pub meta: WorldMeta,
    /// The map over the world's storage backend.
    pub map: WorldMap<B>,
}

impl<B: MapBackend> World<B> {
    /// Assembles an opened world from an open plan and the backend that was
    /// constructed for the plan's backend kind: the world carries the plan's
    /// name and metadata, and its map wraps exactly the given backend.
    pub fn assemble(plan: OpenPlan, backend: B) -> (w: World<B>)
        ensures
            w.name == plan.name,
            w.meta == plan.meta,
            w.map.backend_of() == backend,
    {
        World { name: plan.name, meta: plan.meta, map: WorldMap::new(backend) }
    }
}

} // verus!
