use desktop_environment::wave::{
    wave_format_from_ptr, wave_format_len, NullFormat, WaveFormatOwned,
};

fn stereo() -> Vec<u8> {
    vec![
        0xfe, 0xff, 2, 0, 0x80, 0xbb, 0, 0, 0, 0xdc, 5, 0, 8, 0, 32, 0, 3, 0, 0xaa, 0xbb, 0xcc, 0xdd,
    ]
}

#[test]
fn formats_are_copied_with_their_extra_bytes() {
    let memory = stereo();

    assert_eq!(wave_format_len(&memory), 21);
    assert_eq!(
        wave_format_from_ptr(Some(&memory)),
        Ok(WaveFormatOwned { bytes: memory[..21].to_vec(), block_align: 8 })
    );
}

#[test]
fn formats_without_extra_bytes_are_headers() {
    let mut memory = stereo();
    memory[16] = 0;
    let format = wave_format_from_ptr(Some(&memory[..18])).unwrap();

    assert_eq!(format.bytes.len(), 18);
    assert_eq!(wave_format_len(&memory), 18);
}

#[test]
fn formats_are_described_by_their_fields() {
    let format = wave_format_from_ptr(Some(&stereo())).unwrap();

    assert_eq!(
        format.describe(),
        "tag=65534 channels=2 rate=48000 bits=32 block_align=8 extra=3"
    );
}

#[test]
fn there_is_no_format_behind_a_null_pointer() {
    assert_eq!(wave_format_from_ptr(None), Err(NullFormat));
    assert_eq!(
        NullFormat.message(),
        "IAudioClient::GetMixFormat returned a null format pointer"
    );
}
