use io_buffer::compress::lz4::{
    block_result, ERR_LZ4_COMPRESS, ERR_LZ4_DECOMPRESS, LZ4, LZ4_MAX_INPUT_SIZE,
};
use io_buffer::compress::Compression;
use io_buffer::{rand_buffer, Buffer};
use std::time::Instant;

#[test]
fn test_compress() {
    let buf_len: usize = 16 * 1024;
    // prepare
    let mut buffer = Buffer::allocate(buf_len as i32).unwrap();
    rand_buffer(buffer.as_mut());
    let bound = LZ4::compress_bound(buf_len);
    println!("compress_bound={}", bound);

    // compress
    let mut compressed_buffer = Buffer::allocate(bound as i32).unwrap();
    let compressed_len = LZ4::compress(buffer.as_ref(), compressed_buffer.as_mut()).unwrap();
    let mut _compressed_buffer = Buffer::allocate(compressed_len as i32).unwrap();
    _compressed_buffer.copy_from(0, compressed_buffer.as_ref());
    println!("compressed_len={}", _compressed_buffer.len());

    // decompress
    let mut decompressed_buffer = Buffer::allocate(buf_len as i32).unwrap();
    decompressed_buffer.set_zero(0, decompressed_buffer.len());
    let decompressed_len =
        LZ4::decompress(_compressed_buffer.as_ref(), decompressed_buffer.as_mut()).unwrap();
    println!("decompressed_len={}", decompressed_len);
    assert_eq!(&decompressed_buffer.as_ref()[0..decompressed_len as usize], &buffer.as_ref()[0..]);
}

#[test]
fn test_benchmark_compress() {
    let loop_cnt: u64 = 1000000;
    // prepare
    let mut buffer = Buffer::allocate(16 * 1024).unwrap();
    rand_buffer(buffer.as_mut());
    let mut bound = LZ4::compress_bound(16 * 1024);
    bound = (bound + 511) / 512 * 512;

    let mut compressed_len = 0;
    let start_ts = Instant::now();
    for _i in 0..loop_cnt {
        let mut compressed_buffer = Buffer::allocate(bound as i32).unwrap();

        let mut _compressed_len = LZ4::compress(buffer.as_ref(), compressed_buffer.as_mut()).unwrap();
        compressed_len = _compressed_len;
    }
    let end_ts = Instant::now();
    println!(
        "compressed_len={}. compress speed {}(byte)/sec",
        compressed_len,
        ((loop_cnt * 16 * 1024) as f64) / (end_ts.duration_since(start_ts).as_secs_f64())
    );
}

#[test]
fn test_benchmark_decompress() {
    let loop_cnt: u64 = 1000000;
    // prepare
    let mut buffer = Buffer::allocate(16 * 1024).unwrap();
    rand_buffer(buffer.as_mut());
    let mut bound = LZ4::compress_bound(16 * 1024) as usize;
    println!("compress_bound={}", bound);

    bound = (bound + 511) / 512 * 512;
    let mut compressed_buffer = Buffer::allocate(bound as i32).unwrap();
    let compressed_len = LZ4::compress(buffer.as_ref(), compressed_buffer.as_mut()).unwrap();

    let mut decompressed_len = 0;
    let start_ts = Instant::now();
    for _i in 0..loop_cnt {
        let mut decompressed_buffer = Buffer::allocate(16 * 1024).unwrap();

        let _decompressed_len = LZ4::decompress(
            &compressed_buffer.as_ref()[0..compressed_len as usize],
            decompressed_buffer.as_mut(),
        )
        .unwrap();
        decompressed_len = _decompressed_len;
    }
    let end_ts = Instant::now();
    println!(
        "decompressed_len={}. decompress speed {}(byte)/sec",
        decompressed_len,
        ((loop_cnt * 16 * 1024) as f64) / (end_ts.duration_since(start_ts).as_secs_f64())
    );
}

#[test]
fn compress_bound_follows_the_formula() {
    assert_eq!(LZ4::compress_bound(0), 16);
    assert_eq!(LZ4::compress_bound(1), 17);
    assert_eq!(LZ4::compress_bound(254), 270);
    assert_eq!(LZ4::compress_bound(255), 272);
    assert_eq!(LZ4::compress_bound(512), 530);
    assert_eq!(LZ4::compress_bound(16 * 1024), 16464);
    assert_eq!(LZ4_MAX_INPUT_SIZE, 0x7E00_0000);
    assert_eq!(LZ4::compress_bound(LZ4_MAX_INPUT_SIZE), 2_122_219_150);
    assert_eq!(LZ4::compress_bound(LZ4_MAX_INPUT_SIZE + 1), 0);
    assert_eq!(LZ4::compress_bound(usize::MAX), 0);
}

#[test]
fn aligned_buffer_survives_compression() {
    let mut plain = Buffer::aligned(512).unwrap();
    for (i, byte) in plain.as_mut().iter_mut().enumerate() {
        *byte = ((i * 7 + i / 3) % 256) as u8;
    }
    let bound = LZ4::compress_bound(512);
    let mut compressed = Buffer::allocate(bound as i32).unwrap();
    let compressed_len = LZ4::compress(plain.as_ref(), compressed.as_mut()).unwrap();
    assert!(compressed_len > 0);
    assert!(compressed_len <= bound);
    compressed.set_len(compressed_len);

    let mut restored = Buffer::allocate(512).unwrap();
    restored.zero();
    let restored_len = LZ4::decompress(compressed.as_ref(), restored.as_mut()).unwrap();
    assert_eq!(restored_len, 512);
    assert_eq!(restored.as_ref(), plain.as_ref());
}

#[test]
fn compress_fails_without_room() {
    let mut source = [0u8; 1024];
    rand_buffer(&mut source);
    let mut small = [0u8; 8];
    let error = LZ4::compress(&source, &mut small).unwrap_err();
    assert_eq!(error.kind(), std::io::ErrorKind::Other);
    assert_eq!(format!("{}", error), ERR_LZ4_COMPRESS);
    assert_eq!(ERR_LZ4_COMPRESS, "lz4_compress_failed");
    let mut none: [u8; 0] = [];
    assert!(LZ4::compress(&source, &mut none).is_err());
}

#[test]
fn compress_of_nothing_writes_one_byte() {
    let mut dest = [0xffu8; 16];
    assert_eq!(LZ4::compress(&[], &mut dest).unwrap(), 1);
}

#[test]
fn decompress_fails_on_a_broken_block() {
    let broken = [0xffu8; 64];
    let mut dest = [0u8; 256];
    let error = LZ4::decompress(&broken, &mut dest).unwrap_err();
    assert_eq!(error.kind(), std::io::ErrorKind::Other);
    assert_eq!(format!("{}", error), ERR_LZ4_DECOMPRESS);
    assert_eq!(ERR_LZ4_DECOMPRESS, "lz4_decompress_failed");
}

#[test]
fn decompress_fails_without_room() {
    let mut source = [0u8; 1024];
    rand_buffer(&mut source);
    let mut compressed = vec![0u8; LZ4::compress_bound(1024)];
    let compressed_len = LZ4::compress(&source, &mut compressed).unwrap();
    let mut small = [0u8; 100];
    let error = LZ4::decompress(&compressed[..compressed_len], &mut small).unwrap_err();
    assert_eq!(format!("{}", error), ERR_LZ4_DECOMPRESS);
    let mut exact = [0u8; 1024];
    assert_eq!(LZ4::decompress(&compressed[..compressed_len], &mut exact).unwrap(), 1024);
    assert_eq!(exact, source);
}

#[test]
fn decompress_of_an_empty_block_is_an_error() {
    let mut dest = [0u8; 16];
    let mut compressed = [0u8; 16];
    let compressed_len = LZ4::compress(&[], &mut compressed).unwrap();
    let error = LZ4::decompress(&compressed[..compressed_len], &mut dest).unwrap_err();
    assert_eq!(format!("{}", error), ERR_LZ4_DECOMPRESS);
    assert!(LZ4::decompress(&[], &mut dest).is_err());
}

#[test]
fn block_result_hands_on_a_count_above_zero() {
    assert_eq!(block_result(Some(5), ERR_LZ4_COMPRESS).unwrap(), 5);
    assert_eq!(block_result(Some(1), ERR_LZ4_DECOMPRESS).unwrap(), 1);
    assert_eq!(block_result(Some(usize::MAX), ERR_LZ4_COMPRESS).unwrap(), usize::MAX);
}

#[test]
fn block_result_turns_nothing_into_the_error() {
    let error = block_result(Some(0), ERR_LZ4_COMPRESS).unwrap_err();
    assert_eq!(error.kind(), std::io::ErrorKind::Other);
    assert_eq!(format!("{}", error), "lz4_compress_failed");
    let error = block_result(None, ERR_LZ4_DECOMPRESS).unwrap_err();
    assert_eq!(error.kind(), std::io::ErrorKind::Other);
    assert_eq!(format!("{}", error), "lz4_decompress_failed");
}

#[test]
fn decompress_writes_the_decoded_bytes_to_the_front() {
    let source: Vec<u8> = (0..2000u32).map(|i| (i % 7) as u8).collect();
    let mut compressed = vec![0u8; LZ4::compress_bound(source.len())];
    let compressed_len = LZ4::compress(&source, &mut compressed).unwrap();
    assert!(compressed_len < source.len());
    let mut dest = vec![0xeeu8; 4096];
    let written = LZ4::decompress(&compressed[..compressed_len], &mut dest).unwrap();
    assert_eq!(written, 2000);
    assert_eq!(&dest[..written], &source[..]);
    assert_eq!(dest.len(), 4096);
}

#[test]
fn compress_stays_within_its_bound() {
    for len in [1usize, 15, 255, 1000, 70000] {
        let mut source = vec![0u8; len];
        rand_buffer(&mut source);
        let bound = LZ4::compress_bound(len);
        let mut dest = vec![0u8; bound + 1000];
        let written = LZ4::compress(&source, &mut dest).unwrap();
        assert!(written > 0);
        assert!(written <= bound);
        let mut back = vec![0u8; len];
        assert_eq!(LZ4::decompress(&dest[..written], &mut back).unwrap(), len);
        assert_eq!(back, source);
    }
}
