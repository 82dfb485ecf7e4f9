use candle_core::Device;
use qwen_rust::data::{decode_le_u32s, TextTokenDataset};

fn le_bytes(tokens: &[u32]) -> Vec<u8> {
    let mut bytes = Vec::new();
    for t in tokens {
        bytes.extend_from_slice(&t.to_le_bytes());
    }
    bytes
}

#[test]
fn decodes_little_endian_tokens() {
    let bytes = vec![1u8, 0, 0, 0, 0x78, 0x56, 0x34, 0x12, 0xff, 0xff, 0xff, 0xff];
    assert_eq!(decode_le_u32s(&bytes), vec![1u32, 0x1234_5678, u32::MAX]);
}

#[test]
fn trailing_partial_token_is_ignored() {
    let bytes = vec![2u8, 0, 0, 0, 9, 9, 9];
    assert_eq!(decode_le_u32s(&bytes), vec![2u32]);
    assert_eq!(decode_le_u32s(&[7u8, 7]), Vec::<u32>::new());
    assert_eq!(decode_le_u32s(&[]), Vec::<u32>::new());
}

#[test]
fn decoding_gives_back_the_encoded_tokens() {
    let tokens = vec![0u32, 1, 255, 256, 65_535, 65_536, 16_777_216, 4_000_000_000, u32::MAX];
    assert_eq!(decode_le_u32s(&le_bytes(&tokens)), tokens);
}

#[test]
fn len_counts_the_windows() {
    let ds = TextTokenDataset::from_tokens(vec![10, 11, 12, 13, 14], 2);
    assert_eq!(ds.len(), 3);
    assert_eq!(ds.seq_len(), 2);
    // Too short for one window: no samples, and no underflow.
    let short = TextTokenDataset::from_tokens(vec![1, 2], 5);
    assert_eq!(short.len(), 0);
    let exact = TextTokenDataset::from_tokens(vec![1, 2, 3], 3);
    assert_eq!(exact.len(), 0);
}

#[test]
fn targets_are_inputs_moved_one_token() {
    let ds = TextTokenDataset::from_tokens(vec![10, 11, 12, 13, 14], 3);
    assert_eq!(ds.len(), 2);
    assert_eq!(ds.window(0), (vec![10, 11, 12], vec![11, 12, 13]));
    assert_eq!(ds.window(1), (vec![11, 12, 13], vec![12, 13, 14]));
    // The inputs of the next sample are the targets of this one.
    assert_eq!(ds.window(1).0, ds.window(0).1);
}

#[test]
fn from_bytes_reads_the_token_file() {
    let ds = TextTokenDataset::from_bytes(&le_bytes(&[5, 6, 7, 8]), 2);
    assert_eq!(ds.len(), 2);
    assert_eq!(ds.window(1), (vec![6, 7], vec![7, 8]));
}

#[test]
fn get_builds_tensors_of_the_windows() {
    let device = Device::Cpu;
    let ds = TextTokenDataset::from_tokens(vec![10, 11, 12, 13, 14, 15], 4);
    let (x, y) = ds.get(1, &device).unwrap();
    assert_eq!(x.dims(), &[1, 4]);
    assert_eq!(y.dims(), &[4]);
    assert_eq!(x.dtype(), candle_core::DType::U32);
    assert_eq!(y.dtype(), candle_core::DType::U32);
    assert_eq!(x.to_vec2::<u32>().unwrap(), vec![vec![11u32, 12, 13, 14]]);
    assert_eq!(y.to_vec1::<u32>().unwrap(), vec![12u32, 13, 14, 15]);
}
