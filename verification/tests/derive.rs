//! Tests of the output-name derivation.

use vraw_convert::parser::VideoCaptureFormat;
use vraw_convert::processing::{derive_output_from_input, LocalTime};
use vraw_convert::ConvertError;

fn fixed_time() -> LocalTime {
    LocalTime { year: 2022, month: 3, day: 7, hour: 20, minute: 50, second: 0 }
}

#[test]
fn derive_output_from_input_same_folder_mp4() {
    let input = "/path/to/raw_recording/recording.vraw";
    let output =
        derive_output_from_input(input, &VideoCaptureFormat::H265, fixed_time()).unwrap();
    assert_eq!("/path/to/raw_recording/recording_2022-03-07T20_50_00.mp4", output);
}

#[test]
fn derive_output_from_input_same_folder_mjpeg() {
    let input = "/path/to/raw_recording/recording.vraw";
    let output =
        derive_output_from_input(input, &VideoCaptureFormat::Mjpeg, fixed_time()).unwrap();
    assert_eq!("/path/to/raw_recording/recording_2022-03-07T20_50_00.mjpeg", output);
}

#[test]
fn derive_output_rejects_unsupported_format() {
    let input = "/path/to/raw_recording/recording.vraw";
    let r = derive_output_from_input(input, &VideoCaptureFormat::Rgb, fixed_time());
    assert_eq!(r, Err(ConvertError::UnsupportedFormat));
    let r = derive_output_from_input(input, &VideoCaptureFormat::H264, fixed_time());
    assert_eq!(r, Err(ConvertError::UnsupportedFormat));
}

#[test]
fn derive_output_bare_file_name() {
    let output =
        derive_output_from_input("recording.vraw", &VideoCaptureFormat::H265, fixed_time())
            .unwrap();
    assert_eq!("recording_2022-03-07T20_50_00.mp4", output);
}

#[test]
fn derive_output_keeps_foreign_extension() {
    let output = derive_output_from_input("/d/clip.avi", &VideoCaptureFormat::Mjpeg, fixed_time())
        .unwrap();
    assert_eq!("/d/clip.avi_2022-03-07T20_50_00.mjpeg", output);
}

#[test]
fn derive_output_pads_every_field() {
    let t = LocalTime { year: 33, month: 12, day: 1, hour: 0, minute: 5, second: 59 };
    let output = derive_output_from_input("/a/b.vraw", &VideoCaptureFormat::H265, t).unwrap();
    assert_eq!("/a/b_0033-12-01T00_05_59.mp4", output);
}
