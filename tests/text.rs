use shader_test_module::text::{str_to_u8_array, u8_array_to_str, InvalidUtf8};

#[test]
fn u8_array_isnt_padded_when_converted_back_to_str() {
    let test_str = "hello";
    assert_eq!(test_str, "hello");

    let test_u8_array = str_to_u8_array::<256>(test_str);
    assert_eq!(u8_array_to_str(&test_u8_array).unwrap(), test_str);
}

#[test]
fn str_to_u8_array_pads_with_zeros() {
    let array = str_to_u8_array::<6>("abc");
    assert_eq!(array, [b'a', b'b', b'c', 0, 0, 0]);
}

#[test]
fn str_to_u8_array_cuts_long_text() {
    let array = str_to_u8_array::<3>("abcdef");
    assert_eq!(array, [b'a', b'b', b'c']);
}

#[test]
fn u8_array_to_str_trims_both_ends() {
    let bytes = [0u8, 0, b'h', b'i', 0, b'!', 0, 0];
    assert_eq!(u8_array_to_str(&bytes).unwrap(), "hi\0!");
}

#[test]
fn u8_array_to_str_of_only_zeros_is_empty() {
    let bytes = [0u8; 8];
    assert_eq!(u8_array_to_str(&bytes).unwrap(), "");
}

#[test]
fn u8_array_to_str_keeps_multibyte_text() {
    let array = str_to_u8_array::<16>("héllo");
    assert_eq!(u8_array_to_str(&array).unwrap(), "héllo");
}

#[test]
fn u8_array_to_str_rejects_invalid_utf8() {
    let bytes = [b'a', 0xff, 0xfe];
    assert_eq!(u8_array_to_str(&bytes), Err(InvalidUtf8));
}
