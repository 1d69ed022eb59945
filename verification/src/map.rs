//! The map: one storage backend behind a single serialized request stream.
//!
//! A backend is anything that can hand back the raw serialized payload of
//! the chunk at a given chunk coordinate.  `WorldMap` owns exactly one backend
//! and composes every fetch with the decoder: `get_block` is
//! `Block::parse_data(backend.get_block_data(pos))`, with each failure
//! tagged by its source.  `get_block` takes the map exclusively, so at most
//! one backend request is in flight at a time per map, and nothing is
//! cached: every call is a real round trip.

use vstd::prelude::*;

use crate::block::{spec_parse, block_wf, Block, DecodeError};
use crate::mesh::Vec3i;

verus! {

/// A storage fault, as the backend reports it.
#[derive(Clone, Debug, PartialEq, Eq)]
pub enum BackendError {
    /// No chunk is stored at the requested coordinate.  A legitimate
    /// outcome — the caller may treat the chunk as all air — and distinct
    /// from a transport fault.
    NotFound,
    /// An I/O or transport fault; carries the backend's description.
    ConnectionFailure(String),
}

/// A failure of `WorldMap::get_block`, tagged by source.
#[derive(Clone, Debug, PartialEq, Eq)]
pub enum Error {
    /// The backend could not produce a payload.
    Backend(BackendError),
    /// The payload was fetched but is not a structurally valid chunk.
    Decode(DecodeError),
}

/// A chunk storage provider: given a chunk coordinate, returns the raw
/// serialized chunk payload, `NotFound` when nothing is stored there, or
/// `ConnectionFailure` on an I/O or transport fault.  Nothing more is
/// promised of implementations; callers must cope with every outcome.
pub trait MapBackend: Sized {
    fn get_block_data(&mut self, pos: Vec3i) -> Result<Vec<u8>, BackendError>;
}

/// A map: exclusive owner of one backend.
pub struct WorldMap<B: MapBackend> {
    backend: B,
}

/// What `get_block` makes of one backend response: the decoded chunk for a
/// structurally valid payload, the decode failure for any other payload, and
/// the backend's own error passed through unchanged.
pub open spec fn spec_get_block(fetched: Result<Seq<u8>, BackendError>) -> Result<
    crate::block::BlockModel,
    Error,
> {
    match fetched {
        Ok(bytes) => match spec_parse(bytes) {
            Some(m) => Ok(m),
            None => Err(Error::Decode(DecodeError::CorruptData)),
        },
        Err(e) => Err(Error::Backend(e)),
    }
}

/// Decodes one backend response.  Verified for every value the backend can
/// hand back, so `get_block` only has to pass the response along.
pub fn decode_response(fetched: Result<Vec<u8>, BackendError>) -> (r: Result<Block, Error>)
    ensures
        match r {
            Ok(b) => spec_get_block(match fetched {
                Ok(v) => Ok(v@),
                Err(e) => Err(e),
            }) == Ok::<_, Error>(b@) && block_wf(b@),
            Err(e) => spec_get_block(match fetched {
                Ok(v) => Ok(v@),
                Err(e2) => Err(e2),
            }) == Err::<crate::block::BlockModel, _>(e),
        },
{
    match fetched {
        Ok(data) => match Block::parse_data(data.as_slice()) {
            Ok(b) => Ok(b),
            Err(e) => Err(Error::Decode(e)),
        },
        Err(e) => Err(Error::Backend(e)),
    }
}

impl<B: MapBackend> WorldMap<B> {
    /// The backend this map owns.
    pub closed spec fn backend_of(&self) -> B {
        self.backend
    }

    /// Wraps a backend in a map that owns it exclusively: the new map holds
    /// exactly the backend it was given.
    pub fn new(backend: B) -> (m: WorldMap<B>)
        ensures
            m.backend_of() == backend,
    {
        WorldMap { backend }
    }

    /// Fetches and decodes the chunk at chunk coordinate `pos`:
    /// `decode(backend.get_block_data(pos))`, both failures propagated
    /// unchanged and tagged by source.  Takes the map exclusively, which
    /// serializes backend access.  Whatever the backend hands back, a
    /// returned chunk is one that some structurally valid payload encodes,
    /// and is well formed.
    pub fn get_block(&mut self, pos: Vec3i) -> (r: Result<Block, Error>)
        ensures
            match r {
                Ok(b) => block_wf(b@) && (exists|bytes: Seq<u8>|
                    spec_parse(bytes) == Some(b@)),
                Err(Error::Backend(_)) => true,
                Err(Error::Decode(e)) => e == DecodeError::CorruptData,
            },
    {
        let fetched = self.backend.get_block_data(pos);
        let ghost fetched_view: Result<Seq<u8>, BackendError> = match fetched {
            Ok(ref v) => Ok(v@),
            Err(ref e) => Err(*e),
        };
        let r = decode_response(fetched);
        proof {
            match r {
                Ok(ref b) => {
                    assert(spec_get_block(fetched_view) == Ok::<_, Error>(b@));
                    assert(fetched_view is Ok);
                    let bytes = fetched_view->Ok_0;
                    assert(spec_parse(bytes) == Some(b@));
                },
                Err(_) => {},
            }
        }
        r
    }
}

} // verus!
