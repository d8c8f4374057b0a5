use pistonproxy::reader::VarDataReader;
use pistonproxy::writer::VarDataWriter;

#[test]
fn check_encoding_int() {
    let mut vec: Vec<u8> = Vec::new();
    let nums: [i32; 7] = [0, 100, -100, 255, -255, i32::MIN, i32::MAX];
    for num in nums.iter() {
        println!("testing number {}", num);
        vec.write_int(*num, 0);
        let (decoded, _) = vec.read_int(0).unwrap();
        assert_eq!(*num, decoded);
    }
}

#[test]
fn check_encoding_long() {
    let mut vec: Vec<u8> = Vec::new();
    let nums: [i64; 9] = [0, 100, -100, 255, -255, 99999999999999, -99999999999999, i64::MIN, i64::MAX];
    for num in nums.iter() {
        println!("testing number {}", num);
        vec.write_long(*num, 0);
        let (decoded, _) = vec.read_long(0).unwrap();
        assert_eq!(*num, decoded);
    }
}

#[test]
fn check_encoding_short() {
    let mut vec: Vec<u8> = Vec::new();
    let nums: [u16; 6] = [0, 100, 255, 127, 123, 72];
    for num in nums.iter() {
        println!("testing number {}", num);
        vec.write_u16(*num, 0);
        let decoded = vec.read_u16(0).unwrap();
        assert_eq!(*num, decoded);
    }
}

#[test]
fn check_encoding_string() {
    let mut vec: Vec<u8> = Vec::new();
    let strings: [String; 3] = [String::from("hello world!"), String::from(""), String::from("123")];
    for s in strings.iter() {
        println!("testing string {}", s);
        vec.write_string(s, 0);
        let (decoded, _) = vec.read_string(0).unwrap();
        assert_eq!(*s, decoded);
    }
}

#[test]
fn int_widths_match_written_widths() {
    for num in [0i32, 1, 127, 128, 300, -1, i32::MIN, i32::MAX, 2097151, 2097152] {
        let mut vec: Vec<u8> = Vec::new();
        let written = vec.write_int(num, 0);
        assert_eq!(vec.read_int(0), Some((num, written)));
    }
    for num in [0i64, 127, 128, -1, i64::MIN, i64::MAX, 99_999_999_999_999, -99_999_999_999_999] {
        let mut vec: Vec<u8> = Vec::new();
        let written = vec.write_long(num, 0);
        assert_eq!(vec.read_long(0), Some((num, written)));
    }
}

#[test]
fn int_exact_bytes() {
    let mut vec: Vec<u8> = Vec::new();
    assert_eq!(vec.write_int(300, 0), 2);
    assert_eq!(vec, vec![0xAC, 0x02]);

    let mut vec: Vec<u8> = Vec::new();
    assert_eq!(vec.write_int(-1, 0), 5);
    assert_eq!(vec, vec![0xFF, 0xFF, 0xFF, 0xFF, 0x0F]);

    let mut vec: Vec<u8> = Vec::new();
    assert_eq!(vec.write_long(-1, 0), 10);
    assert_eq!(vec, vec![0xFF, 0xFF, 0xFF, 0xFF, 0xFF, 0xFF, 0xFF, 0xFF, 0xFF, 0x01]);

    let mut vec: Vec<u8> = vec![9, 9, 9, 9];
    assert_eq!(vec.write_int(1, 1), 1);
    assert_eq!(vec, vec![9, 1, 9, 9]);
}

#[test]
fn int_reads_that_fail() {
    let empty: Vec<u8> = Vec::new();
    assert_eq!(empty.read_int(0), None);
    assert_eq!(empty.read_long(0), None);
    let unterminated: Vec<u8> = vec![0x80, 0x80];
    assert_eq!(unterminated.read_int(0), None);
    let too_long: Vec<u8> = vec![0x80, 0x80, 0x80, 0x80, 0x80, 0x01];
    assert_eq!(too_long.read_int(0), None);
    let too_long64: Vec<u8> = vec![0x80; 11];
    assert_eq!(too_long64.read_long(0), None);
    let one: Vec<u8> = vec![0x05];
    assert_eq!(one.read_int(1), None);
    assert_eq!(one.read_int(7), None);
    assert_eq!(one.read_int(0), Some((5, 1)));
}

#[test]
fn u16_is_big_endian() {
    let mut vec: Vec<u8> = Vec::new();
    vec.write_u16(0x1234, 0);
    assert_eq!(vec, vec![0x12, 0x34]);
    assert_eq!(vec.read_u16(0), Some(0x1234));
    assert_eq!(vec.read_u16(1), None);
    let mut padded: Vec<u8> = vec![7];
    padded.write_u16(0xABCD, 3);
    assert_eq!(padded, vec![7, 0, 0, 0xAB, 0xCD]);
    for v in [0u16, 1, 255, 256, u16::MAX] {
        let mut vec: Vec<u8> = Vec::new();
        vec.write_u16(v, 0);
        assert_eq!(vec.read_u16(0), Some(v));
    }
}

#[test]
fn string_multibyte_round_trip() {
    let text = String::from("héllo ✓ 世界");
    let mut vec: Vec<u8> = Vec::new();
    let written = vec.write_string(&text, 0);
    assert_eq!(written, 1 + text.len());
    assert_eq!(vec[0] as usize, text.len());
    assert_eq!(vec.read_string(0), Some((text, written)));
}

#[test]
fn string_invalid_utf8_reads_empty() {
    let vec: Vec<u8> = vec![2, 0xC3, 0x28, 0x41];
    assert_eq!(vec.read_string(0), Some((String::new(), 3)));
}

#[test]
fn string_reads_that_fail() {
    let short: Vec<u8> = vec![5, b'a', b'b'];
    assert_eq!(short.read_string(0), None);
    let negative: Vec<u8> = vec![0xFF, 0xFF, 0xFF, 0xFF, 0x0F, b'a'];
    assert_eq!(negative.read_string(0), None);
    let empty: Vec<u8> = Vec::new();
    assert_eq!(empty.read_string(0), None);
}

#[test]
fn var_bytes_exact() {
    assert_eq!(pistonproxy::writer::var_bytes(0), vec![0]);
    assert_eq!(pistonproxy::writer::var_bytes(128), vec![0x80, 0x01]);
    assert_eq!(pistonproxy::writer::var_bytes(u64::MAX).len(), 10);
}
