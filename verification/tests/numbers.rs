use rusty_ytdl::{
    checked_time_to_ms, mix_address, normalize_ip, read_block, time_to_ms, VideoError,
};

#[test]
fn durations_count_in_sixties() {
    assert_eq!(time_to_ms("1:02:03"), (3600 + 120 + 3) * 1000);
    assert_eq!(time_to_ms("02:03"), 123_000);
    assert_eq!(time_to_ms("59"), 59_000);
    assert_eq!(time_to_ms("0"), 0);
    assert_eq!(time_to_ms(""), 0);
    assert_eq!(time_to_ms("1:0:0:0"), 216_000_000);
    assert_eq!(time_to_ms("+5"), 5_000);
    assert_eq!(time_to_ms("1:90"), 150_000);
}

#[test]
fn groups_that_are_no_numbers_count_as_zero() {
    assert_eq!(time_to_ms("a:b:c"), 0);
    assert_eq!(time_to_ms("1:xx:03"), 3_603_000);
    assert_eq!(time_to_ms("-1:00"), 0);
    assert_eq!(time_to_ms("1.5"), 0);
    assert_eq!(time_to_ms(" 1"), 0);
    assert_eq!(time_to_ms("2::3"), 7_203_000);
    assert_eq!(time_to_ms(":"), 0);
    assert_eq!(time_to_ms("99999999999999999999999999:01"), 1_000);
}

#[test]
fn addresses_are_spread_over_eight_words() {
    assert_eq!(normalize_ip("2001:4::"), vec![0x2001, 4, 0, 0, 0, 0, 0, 0]);
    assert_eq!(normalize_ip("2001:db8::ff00:42:8329"), vec![0x2001, 0xdb8, 0, 0, 0, 0xff00, 0x42, 0x8329]);
    assert_eq!(normalize_ip("::1"), vec![0, 0, 0, 0, 0, 0, 0, 1]);
    assert_eq!(normalize_ip("::"), vec![0, 0, 0, 0, 0, 0, 0, 0]);
    assert_eq!(normalize_ip(""), vec![0; 8]);
    assert_eq!(normalize_ip("1:2:3:4:5:6:7:8"), vec![1, 2, 3, 4, 5, 6, 7, 8]);
    assert_eq!(normalize_ip("FFFF:abcd::"), vec![0xffff, 0xabcd, 0, 0, 0, 0, 0, 0]);
    assert_eq!(normalize_ip("1::2::3"), vec![1, 0, 0, 0, 0, 0, 0, 2]);
}

#[test]
fn groups_that_are_no_words_count_as_zero() {
    assert_eq!(normalize_ip("12345:g::zz"), vec![0; 8]);
    assert_eq!(normalize_ip("10000::ffff"), vec![0, 0, 0, 0, 0, 0, 0, 0xffff]);
    assert_eq!(normalize_ip("+1:-2::0x3"), vec![1, 0, 0, 0, 0, 0, 0, 0]);
}

#[test]
fn too_many_groups_keep_the_first_and_the_last() {
    assert_eq!(normalize_ip("1:2:3:4:5:6:7:8:9"), vec![1, 2, 3, 4, 5, 6, 7, 8]);
    assert_eq!(normalize_ip("::1:2:3:4:5:6:7:8:9"), vec![2, 3, 4, 5, 6, 7, 8, 9]);
    assert_eq!(normalize_ip("a:b:c:d:e:f:1:2::3:4"), vec![0xa, 0xb, 0xc, 0xd, 0xe, 0xf, 3, 4]);
}

#[test]
fn a_duration_too_large_is_told_apart() {
    assert_eq!(checked_time_to_ms("1:02:03"), Some(3_723_000));
    assert_eq!(checked_time_to_ms(""), Some(0));
    let largest = usize::MAX / 1000;
    assert_eq!(checked_time_to_ms(&largest.to_string()), Some(largest * 1000));
    assert_eq!(checked_time_to_ms(&(largest + 1).to_string()), None);
    assert_eq!(checked_time_to_ms(&format!("{}:00", usize::MAX / 60 + 1)), None);
    assert_eq!(checked_time_to_ms(&format!("{}:0:0:0:0:0:0:0:0:0:0:0", usize::MAX)), None);
}

#[test]
fn a_block_is_an_address_and_its_bits() {
    let block = read_block("2001:4::/48").unwrap();
    assert_eq!(block.words, vec![0x2001, 4, 0, 0, 0, 0, 0, 0]);
    assert_eq!(block.bits, 48);
    assert_eq!(read_block("::1/128").unwrap().bits, 128);
    assert_eq!(read_block("::1/24").unwrap().bits, 24);
    assert_eq!(read_block("::1/+24").unwrap().bits, 24);
    for block in ["", "2001:4::", "/48", "2001:4::/48/1", "/"] {
        assert!(matches!(read_block(block), Err(VideoError::InvalidIPv6Format)), "{}", block);
    }
    for block in ["::1/23", "::1/129", "::1/256", "::1/", "::1/x", "::1/-24", "::1/4 8"] {
        assert!(matches!(read_block(block), Err(VideoError::InvalidIPv6Subnet)), "{}", block);
    }
}

#[test]
fn an_address_of_a_block_keeps_its_leading_bits() {
    let random = vec![0x1111, 0x2222, 0x3333, 0x4444, 0x5555, 0x6666, 0x7777, 0x8888];
    let block = read_block("2001:db8:abcd:ffff::/48").unwrap();
    assert_eq!(
        mix_address(&block, &random),
        vec![0x2001, 0xdb8, 0xabcd, 0x4444, 0x5555, 0x6666, 0x7777, 0x8888]
    );
    let block = read_block("2001:db8:abcd:ffff::/52").unwrap();
    assert_eq!(
        mix_address(&block, &random),
        vec![0x2001, 0xdb8, 0xabcd, 0xf444, 0x5555, 0x6666, 0x7777, 0x8888]
    );
    let block = read_block("8000::/24").unwrap();
    assert_eq!(
        mix_address(&block, &random),
        vec![0x8000, 0x0022, 0x3333, 0x4444, 0x5555, 0x6666, 0x7777, 0x8888]
    );
    let block = read_block("1:2:3:4:5:6:7:8/128").unwrap();
    assert_eq!(mix_address(&block, &random), vec![1, 2, 3, 4, 5, 6, 7, 8]);
    let block = read_block("ffff:ffff:ffff:ffff:ffff:ffff:ffff:ffff/127").unwrap();
    assert_eq!(
        mix_address(&block, &vec![0; 8]),
        vec![0xffff, 0xffff, 0xffff, 0xffff, 0xffff, 0xffff, 0xffff, 0xfffe]
    );
}
