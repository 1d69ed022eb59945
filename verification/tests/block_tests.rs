use forma::block::{Block, DecodeError};
use forma::mesh::Vec3i;

fn encode_chunk(cells: &[u16], names: &[&[u8]]) -> Vec<u8> {
    assert_eq!(cells.len(), 4096);
    let mut v: Vec<u8> = Vec::new();
    for &c in cells {
        v.push((c & 0xff) as u8);
        v.push((c >> 8) as u8);
    }
    let n = names.len() as u16;
    v.push((n & 0xff) as u8);
    v.push((n >> 8) as u8);
    for name in names {
        v.push(name.len() as u8);
        v.extend_from_slice(name);
    }
    v
}

#[test]
fn parse_valid_payload() {
    let mut cells = vec![0u16; 4096];
    cells[0] = 1;
    let data = encode_chunk(&cells, &[b"air", b"stone"]);
    let block = Block::parse_data(&data).unwrap();
    assert_eq!(block.palette_len(), 2);
    assert_eq!(block.get_node(Vec3i { x: 0, y: 0, z: 0 }).id, 1);
    assert_eq!(block.get_node(Vec3i { x: 1, y: 0, z: 0 }).id, 0);
    assert_eq!(block.get_name_by_id(0).unwrap(), "air");
    assert_eq!(block.get_name_by_id(1).unwrap(), "stone");
    assert!(block.get_name_by_id(2).is_none());
}

#[test]
fn cell_order_is_x_then_y_then_z() {
    let mut cells = vec![0u16; 4096];
    // (x, y, z) = (3, 2, 1) sits at index x + 16*y + 256*z
    cells[3 + 16 * 2 + 256 * 1] = 1;
    let data = encode_chunk(&cells, &[b"air", b"stone"]);
    let block = Block::parse_data(&data).unwrap();
    assert_eq!(block.get_node(Vec3i { x: 3, y: 2, z: 1 }).id, 1);
    assert_eq!(block.get_node(Vec3i { x: 1, y: 2, z: 3 }).id, 0);
}

#[test]
fn truncated_payload_is_corrupt() {
    let cells = vec![0u16; 4096];
    let data = encode_chunk(&cells, &[b"air"]);
    let err = Block::parse_data(&data[..100]).unwrap_err();
    assert_eq!(err, DecodeError::CorruptData);
}

#[test]
fn empty_payload_is_corrupt() {
    assert_eq!(Block::parse_data(&[]).unwrap_err(), DecodeError::CorruptData);
}

#[test]
fn unresolved_cell_id_is_corrupt() {
    let mut cells = vec![0u16; 4096];
    cells[17] = 5;
    let data = encode_chunk(&cells, &[b"air", b"stone"]);
    assert_eq!(Block::parse_data(&data).unwrap_err(), DecodeError::CorruptData);
}

#[test]
fn palette_without_air_is_corrupt() {
    let cells = vec![0u16; 4096];
    let data = encode_chunk(&cells, &[b"stone"]);
    assert_eq!(Block::parse_data(&data).unwrap_err(), DecodeError::CorruptData);
}

#[test]
fn trailing_bytes_are_corrupt() {
    let cells = vec![0u16; 4096];
    let mut data = encode_chunk(&cells, &[b"air"]);
    data.push(0);
    assert_eq!(Block::parse_data(&data).unwrap_err(), DecodeError::CorruptData);
}

#[test]
fn overrunning_name_length_is_corrupt() {
    let cells = vec![0u16; 4096];
    let mut data = encode_chunk(&cells, &[]);
    // claim one palette entry, then a name length that overruns the payload
    data[8192] = 1;
    data.push(200);
    data.push(b'a');
    assert_eq!(Block::parse_data(&data).unwrap_err(), DecodeError::CorruptData);
}

#[test]
fn non_ascii_name_is_corrupt() {
    let cells = vec![0u16; 4096];
    let data = encode_chunk(&cells, &[b"air", &[0xffu8, 0xfe]]);
    assert_eq!(Block::parse_data(&data).unwrap_err(), DecodeError::CorruptData);
}

#[test]
fn empty_palette_is_corrupt() {
    let cells = vec![0u16; 4096];
    let data = encode_chunk(&cells, &[]);
    assert_eq!(Block::parse_data(&data).unwrap_err(), DecodeError::CorruptData);
}
