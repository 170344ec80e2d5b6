use rx11::incremental::ConnectionDataCache;
use rx11::types::ConnectionId;

#[test]
fn test_cache_update_and_get() {
    let mut cache = ConnectionDataCache::new();
    let conn_id = ConnectionId::new(1);
    let data = vec![1, 2, 3, 4];

    cache.update_cache(conn_id, 1, &data);
    let (seq, cached) = cache.get_cached(conn_id).unwrap();

    assert_eq!(seq, 1);
    assert_eq!(cached, &data[..]);
}

#[test]
fn test_compute_incremental_identical() {
    let mut cache = ConnectionDataCache::new();
    let conn_id = ConnectionId::new(1);
    let data = vec![0u8; 2048];

    cache.update_cache(conn_id, 1, &data);
    let result = cache.compute_incremental(conn_id, 2, &data);

    assert!(result.is_none());
}

#[test]
fn test_compute_incremental_different() {
    let mut cache = ConnectionDataCache::with_chunk_size(1024);
    let conn_id = ConnectionId::new(1);

    let old_data = vec![0u8; 2048];
    let mut new_data = vec![0u8; 2048];
    new_data[1500..2000].fill(1);

    cache.update_cache(conn_id, 1, &old_data);
    let result = cache.compute_incremental(conn_id, 2, &new_data);

    assert!(result.is_some());
    let msg = result.unwrap();
    assert_eq!(msg.chunks.len(), 1);
}

#[test]
fn test_apply_incremental() {
    let mut cache = ConnectionDataCache::with_chunk_size(1024);
    let conn_id = ConnectionId::new(1);

    let old_data = vec![0u8; 2048];
    let mut new_data = vec![0u8; 2048];
    new_data[1500..2000].fill(1);

    cache.update_cache(conn_id, 1, &old_data);
    let msg = cache.compute_incremental(conn_id, 2, &new_data).unwrap();

    let mut apply_cache = ConnectionDataCache::with_chunk_size(1024);
    apply_cache.update_cache(conn_id, 1, &old_data);
    let result = apply_cache.apply_incremental(&msg).unwrap();

    assert_eq!(result, new_data);
}

#[test]
fn apply_after_compute_gives_back_the_new_data_for_other_lengths() {
    let conn_id = ConnectionId::new(7);
    let old_data: Vec<u8> = (0..5000u32).map(|i| (i % 251) as u8).collect();
    let mut new_data = old_data.clone();
    new_data.truncate(4500);
    new_data[100] ^= 0xFF;
    let mut sender = ConnectionDataCache::with_chunk_size(512);
    sender.update_cache(conn_id, 10, &old_data);
    let msg = sender.compute_incremental(conn_id, 11, &new_data).unwrap();
    assert_eq!(msg.total_len, 4500);
    let mut receiver = ConnectionDataCache::with_chunk_size(512);
    receiver.update_cache(conn_id, 10, &old_data);
    assert_eq!(receiver.apply_incremental(&msg).unwrap(), new_data);
    assert_eq!(receiver.get_cached(conn_id).unwrap().0, 11);
}

#[test]
fn small_or_unknown_data_is_not_diffed() {
    let conn_id = ConnectionId::new(3);
    let mut cache = ConnectionDataCache::new();
    assert!(cache.compute_incremental(conn_id, 1, &vec![0u8; 4096]).is_none());
    cache.update_cache(conn_id, 1, &vec![0u8; 100]);
    assert!(cache.compute_incremental(conn_id, 2, &vec![1u8; 1023]).is_none());
}

#[test]
fn apply_with_wrong_base_is_refused() {
    let conn_id = ConnectionId::new(1);
    let old_data = vec![0u8; 2048];
    let mut new_data = old_data.clone();
    new_data[0] = 9;
    let mut cache = ConnectionDataCache::with_chunk_size(1024);
    cache.update_cache(conn_id, 1, &old_data);
    let msg = cache.compute_incremental(conn_id, 2, &new_data).unwrap();
    let mut other = ConnectionDataCache::with_chunk_size(1024);
    other.update_cache(conn_id, 5, &old_data);
    assert!(other.apply_incremental(&msg).is_none());
}

#[test]
fn clear_forgets_cached_data() {
    let mut cache = ConnectionDataCache::default();
    cache.update_cache(ConnectionId::new(1), 1, &[1]);
    cache.update_cache(ConnectionId::new(2), 1, &[2]);
    cache.clear_connection(ConnectionId::new(1));
    assert!(cache.get_cached(ConnectionId::new(1)).is_none());
    assert!(cache.get_cached(ConnectionId::new(2)).is_some());
    cache.clear_all();
    assert!(cache.get_cached(ConnectionId::new(2)).is_none());
}
