use wordfold::args::parse_args;
use wordfold::errors::IoError;
use wordfold::fold::fold_slice;
use wordfold::fold::read_word;
use wordfold::reader::fold_mapped;
use wordfold::reader::Throughput;

fn le_word(v: u64) -> Vec<u8> {
    v.to_le_bytes().to_vec()
}

#[test]
fn two_words_signature_and_count() {
    // A file of exactly two little-endian words, 1 and 2: signature 3, 16 bytes.
    let mut contents = le_word(1);
    contents.extend(le_word(2));
    let mut reader = Throughput::new();
    reader.feed(&contents);
    assert_eq!(reader.token, 3);
    assert_eq!(reader.bytes, 16);
}

#[test]
fn trailing_bytes_excluded() {
    // 20 bytes: two full words plus 4 trailing bytes; the tail is not folded.
    let mut contents = le_word(10);
    contents.extend(le_word(32));
    contents.extend(vec![0xFF, 0xFF, 0xFF, 0xFF]);
    assert_eq!(contents.len(), 20);
    let mut reader = Throughput::new();
    reader.feed(&contents);
    assert_eq!(reader.token, 42);
    assert_eq!(reader.bytes, 20);
}

#[test]
fn truncation_folds_k_words() {
    // 8k + r bytes (here k = 1, r = 1) fold exactly k words in both readers.
    let mut contents = le_word(7);
    contents.push(0xAB);
    let mut reader = Throughput::new();
    reader.feed(&contents);
    assert_eq!(reader.token, 7);
    assert_eq!(reader.bytes, 9);
    assert_eq!(fold_mapped(&contents), 7);
}

#[test]
fn empty_file_totals() {
    let mut reader = Throughput::new();
    assert_eq!(reader.bytes, 0);
    assert_eq!(reader.token, 0);
    reader.feed(&[]);
    assert_eq!(reader.bytes, 0);
    assert_eq!(reader.token, 0);
    assert_eq!(fold_mapped(&[]), 0);
}

#[test]
fn region_shorter_than_a_word_folds_nothing() {
    // The mapped reader clamps the final boundary: under 8 bytes, zero words.
    let contents = vec![0xFF, 0xFF, 0xFF, 0xFF, 0xFF, 0xFF, 0xFF];
    assert_eq!(fold_mapped(&contents), 0);
    assert_eq!(fold_slice(5, &contents), 5);
}

#[test]
fn signature_is_deterministic() {
    let mut contents = le_word(0x0123_4567_89AB_CDEF);
    contents.extend(le_word(0xFEDC_BA98_7654_3210));
    contents.extend(vec![1, 2, 3]);
    let first = fold_mapped(&contents);
    let second = fold_mapped(&contents);
    assert_eq!(first, second);
    let mut r1 = Throughput::new();
    r1.feed(&contents);
    let mut r2 = Throughput::new();
    r2.feed(&contents);
    assert_eq!(r1.token, r2.token);
    assert_eq!(r1.token, first);
}

#[test]
fn chunked_and_mapped_agree() {
    // Feeding word-aligned chunks gives the same signature as one pass over
    // the whole contents.
    let mut contents: Vec<u8> = Vec::new();
    for i in 0..6u64 {
        contents.extend(le_word(i * 1_000_003));
    }
    contents.extend(vec![9, 9, 9, 9, 9]);
    let mut reader = Throughput::new();
    reader.feed(&contents[..16]);
    reader.feed(&contents[16..40]);
    reader.feed(&contents[40..]);
    assert_eq!(reader.token, fold_mapped(&contents));
    assert_eq!(reader.bytes as usize, contents.len());
}

#[test]
fn accumulator_wraps_around() {
    // Overflow is intentional: u64::MAX + 1 wraps to 0, + 2 gives 1.
    let mut contents = le_word(u64::MAX);
    contents.extend(le_word(1));
    assert_eq!(fold_mapped(&contents), 0);
    let mut contents2 = le_word(u64::MAX);
    contents2.extend(le_word(2));
    assert_eq!(fold_mapped(&contents2), 1);
}

#[test]
fn words_decode_little_endian() {
    let mut data = vec![1, 0, 0, 0, 0, 0, 0, 0];
    data.extend(vec![0, 0, 0, 0, 0, 0, 0, 1]);
    assert_eq!(read_word(&data, 0), 1);
    assert_eq!(read_word(&data, 1), 1u64 << 56);
    assert_eq!(read_word(&le_word(0xDEAD_BEEF_CAFE_F00D), 0), 0xDEAD_BEEF_CAFE_F00D);
}

#[test]
fn one_path_argument_accepted() {
    let args = vec!["prog".to_string(), "data.bin".to_string()];
    assert_eq!(parse_args(&args), Ok("data.bin".to_string()));
}

#[test]
fn wrong_argument_count_rejected() {
    let none: Vec<String> = vec!["prog".to_string()];
    assert_eq!(parse_args(&none), Err(IoError::InvalidArguments));
    let two = vec!["prog".to_string(), "a".to_string(), "b".to_string()];
    assert_eq!(parse_args(&two), Err(IoError::InvalidArguments));
}

#[test]
fn errors_name_the_failing_operation() {
    assert_eq!(IoError::OpenFailed.describe(), "unable to open file");
    assert_eq!(IoError::ReadFailed.describe(), "unable to read file");
    assert_eq!(IoError::StatFailed.describe(), "unable to get metadata");
    assert_eq!(IoError::MapFailed.describe(), "unable to map file");
    assert_eq!(IoError::InvalidArguments.describe(), "invalid number of arguments");
}
