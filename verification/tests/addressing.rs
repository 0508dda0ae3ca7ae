use falling_sand::chunk::{SimulationHelperChunk, CHUNK_SIZE};

#[test]
fn centre_origin_maps_to_chunk_four() {
    assert_eq!(SimulationHelperChunk::local_to_indices(0, 0), (4, 0, 0, 0));
}

#[test]
fn negative_coordinates_use_floor_division() {
    let s = i32::from(CHUNK_SIZE);
    assert_eq!(SimulationHelperChunk::local_to_indices(-1, -1), (0, 9999, 99, 99));
    assert_eq!(SimulationHelperChunk::local_to_indices(-s, 0), (3, 0, 0, 0));
    assert_eq!(SimulationHelperChunk::local_to_indices(-1, 5), (3, 599, 99, 5));
    assert_eq!(SimulationHelperChunk::local_to_indices(2 * s - 1, 2 * s - 1), (8, 9999, 99, 99));
}
