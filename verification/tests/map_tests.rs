use forma::block::DecodeError;
use forma::map::{decode_response, BackendError, Error, MapBackend, WorldMap};
use forma::mesh::Vec3i;

fn encode_chunk(cells: &[u16], names: &[&[u8]]) -> Vec<u8> {
    assert_eq!(cells.len(), 4096);
    let mut v: Vec<u8> = Vec::new();
    for &c in cells {
        v.push((c & 0xff) as u8);
        v.push((c >> 8) as u8);
    }
    let n = names.len() as u16;
    v.push((n & 0xff) as u8);
    v.push((n >> 8) as u8);
    for name in names {
        v.push(name.len() as u8);
        v.extend_from_slice(name);
    }
    v
}

struct EmptyBackend;

impl MapBackend for EmptyBackend {
    fn get_block_data(&mut self, _pos: Vec3i) -> Result<Vec<u8>, BackendError> {
        Err(BackendError::NotFound)
    }
}

struct FaultyBackend;

impl MapBackend for FaultyBackend {
    fn get_block_data(&mut self, _pos: Vec3i) -> Result<Vec<u8>, BackendError> {
        Err(BackendError::ConnectionFailure("connection reset".to_string()))
    }
}

struct TruncatingBackend;

impl MapBackend for TruncatingBackend {
    fn get_block_data(&mut self, _pos: Vec3i) -> Result<Vec<u8>, BackendError> {
        let cells = vec![0u16; 4096];
        let data = encode_chunk(&cells, &[b"air"]);
        Ok(data[..64].to_vec())
    }
}

struct StoredBackend;

impl MapBackend for StoredBackend {
    fn get_block_data(&mut self, _pos: Vec3i) -> Result<Vec<u8>, BackendError> {
        let mut cells = vec![0u16; 4096];
        cells[0] = 1;
        Ok(encode_chunk(&cells, &[b"air", b"stone"]))
    }
}

#[test]
fn missing_chunk_surfaces_not_found() {
    let mut map = WorldMap::new(EmptyBackend);
    let err = map.get_block(Vec3i { x: 0, y: 0, z: 0 }).unwrap_err();
    assert_eq!(err, Error::Backend(BackendError::NotFound));
}

#[test]
fn connection_fault_is_distinct_from_not_found() {
    let mut map = WorldMap::new(FaultyBackend);
    let err = map.get_block(Vec3i { x: 1, y: 2, z: 3 }).unwrap_err();
    match err {
        Error::Backend(BackendError::ConnectionFailure(msg)) => {
            assert_eq!(msg, "connection reset")
        },
        _ => panic!("wrong error variant"),
    }
}

#[test]
fn truncated_payload_surfaces_decode_error() {
    let mut map = WorldMap::new(TruncatingBackend);
    let err = map.get_block(Vec3i { x: 0, y: 0, z: 0 }).unwrap_err();
    assert_eq!(err, Error::Decode(DecodeError::CorruptData));
}

#[test]
fn stored_chunk_is_fetched_and_decoded() {
    let mut map = WorldMap::new(StoredBackend);
    let block = map.get_block(Vec3i { x: 0, y: 0, z: 0 }).unwrap();
    assert_eq!(block.get_node(Vec3i { x: 0, y: 0, z: 0 }).id, 1);
    assert_eq!(block.get_name_by_id(1).unwrap(), "stone");
}

#[test]
fn decode_response_tags_backend_errors() {
    let r = decode_response(Err(BackendError::NotFound));
    assert_eq!(r.unwrap_err(), Error::Backend(BackendError::NotFound));
}

#[test]
fn decode_response_tags_decode_errors() {
    let r = decode_response(Ok(vec![1u8, 2, 3]));
    assert_eq!(r.unwrap_err(), Error::Decode(DecodeError::CorruptData));
}
