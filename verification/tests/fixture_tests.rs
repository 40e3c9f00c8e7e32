use test_data_generator::fixture::{
    block_file_name, decimal, pairing_test_data_file_name, withdrawal_info_file_name,
};

#[test]
fn block_file_names() {
    assert_eq!(block_file_name(0), b"block0.json".to_vec());
    assert_eq!(block_file_name(1), b"block1.json".to_vec());
    assert_eq!(block_file_name(9), b"block9.json".to_vec());
    assert_eq!(block_file_name(10), b"block10.json".to_vec());
    assert_eq!(block_file_name(305), b"block305.json".to_vec());
    assert_eq!(block_file_name(u32::MAX), b"block4294967295.json".to_vec());
}

#[test]
fn block_file_names_agree_with_formatting() {
    for n in [0u32, 1, 2, 3, 7, 10, 11, 99, 100, 101, 999, 1000, 65535, 65536, 1_000_000, 4_294_967_294] {
        assert_eq!(String::from_utf8(block_file_name(n)).unwrap(), format!("block{}.json", n));
        assert_eq!(String::from_utf8(decimal(n)).unwrap(), format!("{}", n));
    }
}

#[test]
fn decimal_has_no_leading_zero() {
    assert_eq!(decimal(0), b"0".to_vec());
    assert_eq!(decimal(1000), b"1000".to_vec());
    assert_eq!(decimal(4_000_000_000), b"4000000000".to_vec());
}

#[test]
fn fixed_file_names() {
    assert_eq!(withdrawal_info_file_name(), b"withdrawal_info.json".to_vec());
    assert_eq!(pairing_test_data_file_name(), b"pairing_test_data.json".to_vec());
}

#[test]
fn block_file_names_differ() {
    let names: Vec<Vec<u8>> = (0..200u32).map(block_file_name).collect();
    for i in 0..names.len() {
        for j in 0..i {
            assert_ne!(names[i], names[j]);
        }
    }
}
