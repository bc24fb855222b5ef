use idotmatrix::commands::{Color, Command, Pixel};
use idotmatrix::transport::{fragment, plan_transfer, write_mode, WriteMode, MTU};
use idotmatrix::wire::{create_gif_payload, create_png_payload, gif_payload_with_crc};
use idotmatrix::{CountdownDuration, IDMColor, IDMCommand, IDMPixel};

fn sample(len: usize) -> Vec<u8> {
    (0..len).map(|i| (i * 7 + 3) as u8).collect()
}

#[test]
fn set_pixel_bytes() {
    let cmd = IDMCommand::SetPixel(IDMPixel { x: 3, y: 31, color: IDMColor { r: 255, g: 128, b: 1 } });
    assert_eq!(cmd.to_bytes(), vec![10, 0, 5, 1, 0, 255, 128, 1, 3, 31]);
}

#[test]
fn image_mode_bytes() {
    assert_eq!(IDMCommand::ImageMode(1).to_bytes(), vec![5, 0, 4, 1, 1]);
}

#[test]
fn full_screen_color_bytes() {
    let cmd = IDMCommand::FullScreenColor(IDMColor { r: 10, g: 20, b: 30 });
    assert_eq!(cmd.to_bytes(), vec![7, 0, 2, 2, 10, 20, 30]);
}

#[test]
fn screen_brightness_bytes() {
    assert_eq!(IDMCommand::ScreenBrightness(50).to_bytes(), vec![5, 0, 4, 128, 50]);
}

#[test]
fn screen_on_off_bytes() {
    assert_eq!(IDMCommand::ScreenOn.to_bytes(), vec![5, 0, 7, 1, 1]);
    assert_eq!(IDMCommand::ScreenOff.to_bytes(), vec![5, 0, 7, 1, 0]);
}

#[test]
fn countdown_start_bytes() {
    let cmd = IDMCommand::CountdownStart(CountdownDuration::from_secs(125));
    assert_eq!(cmd.to_bytes(), vec![7, 0, 8, 128, 1, 2, 5]);
}

#[test]
fn countdown_minutes_wrap_at_256() {
    let cmd = IDMCommand::CountdownStart(CountdownDuration::from_secs(256 * 60 + 61));
    assert_eq!(cmd.to_bytes(), vec![7, 0, 8, 128, 1, 1, 1]);
}

#[test]
fn countdown_control_bytes() {
    assert_eq!(IDMCommand::CountdownCancel.to_bytes(), vec![7, 0, 8, 128, 0, 0, 0]);
    assert_eq!(IDMCommand::CountdownPause.to_bytes(), vec![7, 0, 8, 128, 2, 0, 0]);
    assert_eq!(IDMCommand::CountdownResume.to_bytes(), vec![7, 0, 8, 128, 3, 0, 0]);
}

#[test]
fn command_matches_idm_command() {
    let pixel = Command::SetPixel(Pixel { x: 1, y: 2, color: Color { r: 3, g: 4, b: 5 } });
    assert_eq!(pixel.to_bytes(), vec![10, 0, 5, 1, 0, 3, 4, 5, 1, 2]);
    assert_eq!(Command::ImageMode(1).to_bytes(), vec![5, 0, 4, 1, 1]);
    let color = Command::FullScreenColor(Color { r: 9, g: 8, b: 7 });
    assert_eq!(color.to_bytes(), vec![7, 0, 2, 2, 9, 8, 7]);
    assert_eq!(Command::ScreenBrightness(100).to_bytes(), vec![5, 0, 4, 128, 100]);
    assert_eq!(Command::ScreenOn.to_bytes(), vec![5, 0, 7, 1, 1]);
    assert_eq!(Command::ScreenOff.to_bytes(), vec![5, 0, 7, 1, 0]);
    let start = Command::CountdownStart(CountdownDuration::from_secs(125));
    assert_eq!(start.to_bytes(), vec![7, 0, 8, 128, 1, 2, 5]);
    assert_eq!(Command::CountdownCancel.to_bytes(), vec![7, 0, 8, 128, 0, 0, 0]);
    assert_eq!(Command::CountdownPause.to_bytes(), vec![7, 0, 8, 128, 2, 0, 0]);
    assert_eq!(Command::CountdownResume.to_bytes(), vec![7, 0, 8, 128, 3, 0, 0]);
    let data = sample(5000);
    assert_eq!(Command::UploadPng(data.clone()).to_bytes(), IDMCommand::UploadPng(data).to_bytes());
}

#[test]
fn still_image_small_exact() {
    let frame = create_png_payload(&[1, 2, 3]);
    assert_eq!(frame, vec![4, 0, 0, 0, 0, 3, 0, 0, 0, 1, 2, 3]);
}

#[test]
fn still_image_one_full_block() {
    let data = sample(4096);
    let frame = IDMCommand::UploadPng(data.clone()).to_bytes();
    assert_eq!(frame.len(), 9 + 4096);
    // 4096 + 1 block = 4097 = 0x1001
    assert_eq!(&frame[0..9], &[0x01, 0x10, 0, 0, 0, 0x00, 0x10, 0, 0]);
    assert_eq!(&frame[9..], &data[..]);
}

#[test]
fn still_image_two_blocks() {
    let data = sample(4097);
    let frame = IDMCommand::UploadPng(data.clone()).to_bytes();
    assert_eq!(frame.len(), 2 * 9 + 4097);
    // 4097 + 2 blocks = 4099 = 0x1003; input length 4097 = 0x1001
    assert_eq!(&frame[0..9], &[0x03, 0x10, 0, 0, 0, 0x01, 0x10, 0, 0]);
    assert_eq!(&frame[9..4105], &data[..4096]);
    assert_eq!(&frame[4105..4114], &[0x03, 0x10, 0, 0, 2, 0x01, 0x10, 0, 0]);
    assert_eq!(&frame[4114..], &data[4096..]);
}

#[test]
fn still_image_length_field_wraps() {
    let data = sample(70000);
    let frame = create_png_payload(&data);
    // 70000 + 18 blocks = 70018, kept to two bytes: 4482 = 0x1182
    assert_eq!(&frame[0..2], &[0x82, 0x11]);
    assert_eq!(&frame[5..9], &[0x70, 0x11, 0x01, 0x00]);
    assert_eq!(frame.len(), 18 * 9 + 70000);
}

#[test]
fn animated_image_exact_with_given_crc() {
    let frame = gif_payload_with_crc(&[1, 2, 3], 0xAABBCCDD);
    assert_eq!(frame, vec![19, 0, 1, 0, 0, 19, 0, 0, 0, 0xDD, 0xCC, 0xBB, 0xAA, 5, 0, 13, 1, 2, 3]);
}

#[test]
fn animated_image_crc_in_every_block() {
    let data = sample(9000);
    let crc = crc32fast::hash(&data).to_le_bytes();
    let frame = IDMCommand::UploadGif(data.clone()).to_bytes();
    assert_eq!(frame.len(), 3 * 16 + 9000);
    let starts = [0usize, 4112, 8224];
    let flags = [0u8, 2, 2];
    let lens = [4112u16, 4112, 808 + 16];
    for k in 0..3 {
        let s = starts[k];
        assert_eq!(&frame[s..s + 2], &lens[k].to_le_bytes());
        assert_eq!(&frame[s + 2..s + 5], &[1, 0, flags[k]]);
        assert_eq!(&frame[s + 5..s + 9], &(9016u32).to_le_bytes());
        assert_eq!(&frame[s + 9..s + 13], &crc);
        assert_eq!(&frame[s + 13..s + 16], &[5, 0, 13]);
    }
    assert_eq!(&frame[8224 + 16..], &data[8192..]);
}

#[test]
fn animated_image_crc_is_standard() {
    let frame = create_gif_payload(b"123456789");
    assert_eq!(&frame[9..13], &0xCBF43926u32.to_le_bytes());
}

#[test]
fn animated_image_one_byte_change_changes_crc() {
    let data = sample(5000);
    let mut other = data.clone();
    other[4500] ^= 1;
    let a = create_gif_payload(&data);
    let b = create_gif_payload(&other);
    assert_ne!(&a[9..13], &b[9..13]);
    assert_ne!(&a[4112 + 9..4112 + 13], &b[4112 + 9..4112 + 13]);
    assert_eq!(&b[9..13], &b[4112 + 9..4112 + 13]);
}

#[test]
fn fragments_round_trip() {
    for len in [0usize, 1, 5, 19, 20, 21, 40, 41, 4105, 9000] {
        let frame = sample(len);
        let parts = fragment(&frame);
        assert_eq!(parts.len(), (len + 19) / 20);
        assert!(parts.iter().all(|p| !p.is_empty() && p.len() <= MTU));
        assert_eq!(parts.concat(), frame);
    }
}

#[test]
fn fragments_of_forty_five_bytes() {
    let frame = sample(45);
    let parts = fragment(&frame);
    assert_eq!(parts.len(), 3);
    assert_eq!(parts[0], frame[0..20].to_vec());
    assert_eq!(parts[1], frame[20..40].to_vec());
    assert_eq!(parts[2], frame[40..45].to_vec());
}

#[test]
fn write_mode_by_count() {
    assert_eq!(write_mode(1), WriteMode::WithResponse);
    assert_eq!(write_mode(2), WriteMode::WithoutResponse);
    assert_eq!(write_mode(0), WriteMode::WithoutResponse);
    let (parts, mode) = plan_transfer(&IDMCommand::ScreenOn.to_bytes());
    assert_eq!(parts, vec![vec![5, 0, 7, 1, 1]]);
    assert_eq!(mode, WriteMode::WithResponse);
    let (parts, mode) = plan_transfer(&IDMCommand::UploadPng(sample(100)).to_bytes());
    assert_eq!(parts.len(), 6);
    assert_eq!(mode, WriteMode::WithoutResponse);
}

#[test]
fn encoding_twice_is_identical() {
    let cmd = IDMCommand::UploadGif(sample(5000));
    assert_eq!(cmd.to_bytes(), cmd.to_bytes());
    let cmd = IDMCommand::CountdownStart(CountdownDuration::from_secs(3599));
    assert_eq!(cmd.to_bytes(), cmd.to_bytes());
}

#[test]
fn empty_upload_gives_empty_frame() {
    assert!(IDMCommand::UploadPng(Vec::new()).to_bytes().is_empty());
    assert!(IDMCommand::UploadGif(Vec::new()).to_bytes().is_empty());
    let (parts, _) = plan_transfer(&[]);
    assert!(parts.is_empty());
}
