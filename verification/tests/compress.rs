use rx11::compress::{
    decompress_frame_data, of_length, shorter_than, maybe_compress_frame, maybe_incremental_or_compress_frame,
    CompressionAlgo,
};
use rx11::incremental::ConnectionDataCache;
use rx11::protocol::{CompressedX11DataMessage, Frame};
use rx11::types::ConnectionId;

#[test]
fn test_small_data_skipped() {
    for algo in &CompressionAlgo::ALL {
        assert!(algo.compress(b"hello").is_none(), "small data should skip: {:?}", algo);
    }
}

#[test]
fn test_empty_data_skipped() {
    for algo in &CompressionAlgo::ALL {
        assert!(algo.compress(b"").is_none(), "empty data should skip: {:?}", algo);
    }
}

#[test]
fn test_roundtrip_repetitive() {
    let data = vec![0xAB; 4096];
    for algo in &CompressionAlgo::ALL {
        let compressed = algo.compress(&data).expect(&format!("compress failed: {:?}", algo));
        let decompressed = algo
            .decompress(&compressed, data.len())
            .expect(&format!("decompress failed: {:?}", algo));
        assert_eq!(data, decompressed, "roundtrip failed: {:?}", algo);
    }
}

#[test]
fn test_roundtrip_mixed() {
    let data: Vec<u8> = (0..2000).map(|i| (i % 256) as u8).collect();
    for algo in &CompressionAlgo::ALL {
        let compressed = algo.compress(&data).expect(&format!("compress failed: {:?}", algo));
        let decompressed = algo
            .decompress(&compressed, data.len())
            .expect(&format!("decompress failed: {:?}", algo));
        assert_eq!(data, decompressed, "roundtrip failed: {:?}", algo);
    }
}

#[test]
fn test_incompressible_data_skipped() {
    let data: Vec<u8> = (0..512).map(|_| rand::random::<u8>()).collect();
    for algo in &CompressionAlgo::ALL {
        let result = algo.compress(&data);
        if let Some(ref c) = result {
            assert!(c.len() < data.len(), "compressed should be smaller: {:?}", algo);
        }
    }
}

#[test]
fn test_negotiate() {
    let client = vec![CompressionAlgo::Zstd, CompressionAlgo::Lz4];
    let server = vec![CompressionAlgo::Lz4, CompressionAlgo::Zstd, CompressionAlgo::Zlib];
    assert_eq!(CompressionAlgo::negotiate(&client, &server), Some(CompressionAlgo::Zstd));
}

#[test]
fn test_negotiate_no_common() {
    let client = vec![CompressionAlgo::Zstd];
    let server = vec![CompressionAlgo::Lz4, CompressionAlgo::Zlib];
    assert_eq!(CompressionAlgo::negotiate(&client, &server), None);
}

#[test]
fn test_negotiate_empty_client() {
    let client: Vec<CompressionAlgo> = vec![];
    let server = vec![CompressionAlgo::Zstd];
    assert_eq!(CompressionAlgo::negotiate(&client, &server), None);
}

#[test]
fn test_as_str() {
    assert_eq!(CompressionAlgo::Zstd.as_str(), "zstd");
    assert_eq!(CompressionAlgo::Lz4.as_str(), "lz4");
    assert_eq!(CompressionAlgo::Zlib.as_str(), "zlib");
}

#[test]
fn test_decompress_wrong_original_len() {
    let data = vec![0xAB; 4096];
    for algo in &CompressionAlgo::ALL {
        let compressed = algo.compress(&data).expect(&format!("compress failed: {:?}", algo));
        assert!(
            algo.decompress(&compressed, data.len() + 1).is_none(),
            "should reject wrong original_len: {:?}",
            algo
        );
    }
}

#[test]
fn test_compress_to_bytes_roundtrip() {
    let data = vec![0xCD; 4096];
    for algo in &CompressionAlgo::ALL {
        let compressed = algo
            .compress_to_bytes(&data)
            .expect(&format!("compress_to_bytes failed: {:?}", algo));
        let decompressed = algo
            .decompress(&compressed, data.len())
            .expect(&format!("decompress failed: {:?}", algo));
        assert_eq!(data, decompressed, "roundtrip failed: {:?}", algo);
    }
}

#[test]
fn data_over_sixty_four_bytes_is_compressed() {
    let at = vec![0u8; 64];
    let over = vec![0u8; 65];
    for algo in &CompressionAlgo::ALL {
        assert!(algo.compress(&at).is_none(), "{:?}", algo);
        let c = algo.compress(&over).expect("65 zero bytes compress");
        assert!(c.len() < over.len());
        assert_eq!(algo.decompress(&c, 65).unwrap(), over);
    }
}

#[test]
fn negotiate_prefers_zstd_then_lz4_then_zlib() {
    let all = CompressionAlgo::ALL.to_vec();
    assert_eq!(CompressionAlgo::negotiate(&[CompressionAlgo::Zlib, CompressionAlgo::Lz4], &all), Some(CompressionAlgo::Lz4));
    assert_eq!(CompressionAlgo::negotiate(&[CompressionAlgo::Zlib], &all), Some(CompressionAlgo::Zlib));
    assert_eq!(CompressionAlgo::negotiate(&all, &[CompressionAlgo::Zlib]), Some(CompressionAlgo::Zlib));
}

#[test]
fn garbage_does_not_decompress() {
    let junk = vec![0xFFu8; 40];
    assert!(CompressionAlgo::Zstd.decompress(&junk, 100).is_none());
    assert!(CompressionAlgo::Zlib.decompress(&junk, 100).is_none());
    let mut lz4_junk = vec![100u8, 0, 0, 0];
    lz4_junk.extend_from_slice(&[0xFF; 8]);
    assert!(CompressionAlgo::Lz4.decompress(&lz4_junk, 100).is_none());
}

#[test]
fn maybe_compress_frame_compresses_only_when_it_pays() {
    let cid = ConnectionId::new(9);
    match maybe_compress_frame(cid, 3, vec![7u8; 1000], Some(CompressionAlgo::Lz4)) {
        Frame::CompressedDataX11(m) => {
            assert_eq!(m.connection_id.get(), 9);
            assert_eq!(m.sequence_id, 3);
            assert_eq!(m.original_len, 1000);
            let back = decompress_frame_data(&m, CompressionAlgo::Lz4).unwrap();
            assert_eq!(back, vec![7u8; 1000]);
        }
        other => panic!("expected a compressed frame, got {:?}", other),
    }
    match maybe_compress_frame(cid, 4, vec![1, 2, 3], Some(CompressionAlgo::Zstd)) {
        Frame::DataX11(m) => assert_eq!(m.data, vec![1, 2, 3]),
        other => panic!("expected a plain frame, got {:?}", other),
    }
    match maybe_compress_frame(cid, 5, vec![0u8; 1000], None) {
        Frame::DataX11(m) => assert_eq!(m.data.len(), 1000),
        other => panic!("expected a plain frame, got {:?}", other),
    }
}

#[test]
fn decompress_frame_data_checks_the_stated_length() {
    let data = vec![5u8; 2000];
    let c = CompressionAlgo::Zlib.compress(&data).unwrap();
    let msg = CompressedX11DataMessage {
        connection_id: ConnectionId::new(1),
        sequence_id: 0,
        original_len: 1999,
        data: c,
    };
    assert!(decompress_frame_data(&msg, CompressionAlgo::Zlib).is_none());
}

#[test]
fn incremental_frame_is_sent_when_little_changed() {
    let mut cache = ConnectionDataCache::with_chunk_size(1024);
    let cid = ConnectionId::new(2);
    let old = vec![0u8; 4096];
    let first = maybe_incremental_or_compress_frame(cid, 1, old.clone(), None, Some(&mut cache));
    assert!(matches!(first, Frame::DataX11(_)));
    let mut new = old.clone();
    new[10] = 1;
    match maybe_incremental_or_compress_frame(cid, 2, new.clone(), None, Some(&mut cache)) {
        Frame::IncrementalDataX11(m) => {
            assert_eq!(m.base_sequence_id, 1);
            assert_eq!(m.sequence_id, 2);
            assert_eq!(m.chunks.len(), 1);
            assert_eq!(m.chunks[0].offset, 0);
        }
        other => panic!("expected an incremental frame, got {:?}", other),
    }
    assert_eq!(cache.get_cached(cid).unwrap().1, &new[..]);
}

#[test]
fn compressed_output_is_kept_only_when_shorter() {
    assert_eq!(shorter_than(vec![1, 2, 3], 4), Some(vec![1, 2, 3]));
    assert_eq!(shorter_than(vec![1, 2, 3], 3), None);
    assert_eq!(shorter_than(vec![], 0), None);
    assert_eq!(of_length(Some(vec![9, 9]), 2), Some(vec![9, 9]));
    assert_eq!(of_length(Some(vec![9, 9]), 3), None);
    assert_eq!(of_length(None, 0), None);
}
