use cegel_print_bridge::adapters::SendError;
use cegel_print_bridge::win_usb::{
    contains_text, device_path_matches, find_device_path, first_out_pipe, path_names_device,
    usb_path_target,
};

#[test]
fn target_uses_lower_case_hex() {
    assert_eq!(usb_path_target(0x04B8, 0x0E15), "vid_04b8&pid_0e15");
    assert_eq!(usb_path_target(0, 0xFFFF), "vid_0000&pid_ffff");
}

#[test]
fn contains_text_finds_infixes() {
    assert!(contains_text("abcdef", "cde"));
    assert!(contains_text("abc", ""));
    assert!(contains_text("abc", "abc"));
    assert!(!contains_text("abc", "abcd"));
    assert!(!contains_text("aab", "abb"));
    assert!(contains_text("ñandú", "dú"));
}

#[test]
fn device_paths_match_without_regard_to_case() {
    let path = r"\\?\USB#VID_04B8&PID_0E15#5&2B2E3F1&0&1#{a5dcbf10-6530-11d2-901f-00c04fb951ed}";
    assert!(device_path_matches(path, 0x04B8, 0x0E15));
    assert!(!device_path_matches(path, 0x04B8, 0x0E16));
    assert!(!path_names_device(path, 0x04B8, 0x0E15));
    assert!(path_names_device(&path.to_lowercase(), 0x04B8, 0x0E15));
}

#[test]
fn first_matching_path_is_chosen() {
    let paths = vec![
        r"\\?\usb#vid_1234&pid_0001#x".to_string(),
        r"\\?\usb#VID_0519&PID_0003#a".to_string(),
        r"\\?\usb#vid_0519&pid_0003#b".to_string(),
    ];
    assert_eq!(find_device_path(&paths, 0x0519, 0x0003), Some(1));
    assert_eq!(find_device_path(&paths, 0x04B8, 0x0E15), None);
    assert_eq!(find_device_path(&Vec::new(), 0x0519, 0x0003), None);
}

#[test]
fn first_out_pipe_skips_in_pipes_and_failed_queries() {
    assert_eq!(first_out_pipe(&vec![None, Some(0x81), Some(0x02), Some(0x03)]), Some(0x02));
    assert_eq!(first_out_pipe(&vec![Some(0x81), Some(0x82)]), None);
    assert_eq!(first_out_pipe(&vec![]), None);
    assert_eq!(first_out_pipe(&vec![Some(0x7F)]), Some(0x7F));
}

#[test]
fn win_usb_error_texts() {
    assert_eq!(
        SendError::UsbNotFound { vendor_id: 0x04B8, product_id: 0x0E15 }.message(),
        "no se encontró impresora USB con vendor=04b8 product=0e15"
    );
    assert_eq!(SendError::NoOutPipe.message(), "no se encontró endpoint OUT en el dispositivo USB");
}
