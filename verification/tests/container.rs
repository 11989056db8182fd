use wav_to_mp3::container::{inspect, open_container, validate, WavSpec};
use wav_to_mp3::wav_reader::FormatChunk;
use wav_to_mp3::error::ContainerFormatError;
use wav_to_mp3::splitter::split_channels;

fn container_bytes(channels: u16, sample_rate: u32, bits: u16, data: &[u8]) -> Vec<u8> {
    let block_align = channels * (bits / 8);
    let mut bytes = Vec::new();
    bytes.extend_from_slice(b"RIFF");
    bytes.extend_from_slice(&(36 + data.len() as u32).to_le_bytes());
    bytes.extend_from_slice(b"WAVE");
    bytes.extend_from_slice(b"fmt ");
    bytes.extend_from_slice(&16u32.to_le_bytes());
    bytes.extend_from_slice(&1u16.to_le_bytes());
    bytes.extend_from_slice(&channels.to_le_bytes());
    bytes.extend_from_slice(&sample_rate.to_le_bytes());
    bytes.extend_from_slice(&(sample_rate * block_align as u32).to_le_bytes());
    bytes.extend_from_slice(&block_align.to_le_bytes());
    bytes.extend_from_slice(&bits.to_le_bytes());
    bytes.extend_from_slice(b"data");
    bytes.extend_from_slice(&(data.len() as u32).to_le_bytes());
    bytes.extend_from_slice(data);
    bytes
}

fn container_samples(samples: &[i16]) -> Vec<u8> {
    let mut data = Vec::new();
    for sample in samples {
        data.extend_from_slice(&sample.to_le_bytes());
    }
    data
}

#[test]
fn inspect_accepts_stereo_16_bit() {
    let bytes = container_bytes(2, 44100, 16, &container_samples(&[1, 2, 3, 4]));
    assert_eq!(
        inspect(&bytes),
        Ok(WavSpec { sample_rate: 44100, channels: 2, bits_per_sample: 16 })
    );
}

#[test]
fn inspect_accepts_mono_16_bit() {
    let bytes = container_bytes(1, 8000, 16, &container_samples(&[1, 2, 3]));
    assert_eq!(
        inspect(&bytes),
        Ok(WavSpec { sample_rate: 8000, channels: 1, bits_per_sample: 16 })
    );
}

#[test]
fn inspect_rejects_8_bit() {
    let bytes = container_bytes(2, 44100, 8, &[128, 129, 130, 131]);
    assert_eq!(inspect(&bytes), Err(ContainerFormatError::UnsupportedBitDepth { bits: 8 }));
}

#[test]
fn inspect_rejects_24_bit() {
    let bytes = container_bytes(2, 44100, 24, &[0, 0, 1, 0, 0, 2]);
    assert_eq!(inspect(&bytes), Err(ContainerFormatError::UnsupportedBitDepth { bits: 24 }));
}

#[test]
fn inspect_rejects_three_channels() {
    let bytes = container_bytes(3, 44100, 16, &container_samples(&[1, 2, 3]));
    assert_eq!(inspect(&bytes), Err(ContainerFormatError::UnsupportedLayout { channels: 3 }));
}

#[test]
fn inspect_judges_bit_depth_before_layout() {
    let bytes = container_bytes(3, 44100, 8, &[1, 2, 3]);
    assert_eq!(inspect(&bytes), Err(ContainerFormatError::UnsupportedBitDepth { bits: 8 }));
}

#[test]
fn inspect_rejects_header_cut_short() {
    let whole = container_bytes(2, 44100, 16, &container_samples(&[1, 2, 3, 4]));
    for cut in [0usize, 3, 4, 11, 12, 20, 30, 35, 43] {
        assert_eq!(inspect(&whole[..cut]), Err(ContainerFormatError::BadHeader), "cut at {}", cut);
    }
}

#[test]
fn inspect_accepts_the_shortest_container() {
    let bytes = container_bytes(2, 44100, 16, &[]);
    assert_eq!(bytes.len(), 44);
    assert_eq!(
        inspect(&bytes),
        Ok(WavSpec { sample_rate: 44100, channels: 2, bits_per_sample: 16 })
    );
    let mut reader = open_container(&bytes).expect("a valid container");
    let (left, right) = split_channels(&mut reader);
    assert!(left.is_empty() && right.is_empty());
}

#[test]
fn inspect_rejects_every_proper_prefix_of_the_header() {
    let whole = container_bytes(2, 44100, 16, &[]);
    for cut in 0..whole.len() {
        assert_eq!(inspect(&whole[..cut]), Err(ContainerFormatError::BadHeader), "cut at {}", cut);
    }
}

#[test]
fn inspect_rejects_wrong_tags() {
    let mut bytes = container_bytes(2, 44100, 16, &container_samples(&[1, 2]));
    bytes[0] = b'X';
    assert_eq!(inspect(&bytes), Err(ContainerFormatError::BadHeader));
    let mut bytes = container_bytes(2, 44100, 16, &container_samples(&[1, 2]));
    bytes[8] = b'X';
    assert_eq!(inspect(&bytes), Err(ContainerFormatError::BadHeader));
}

#[test]
fn inspect_rejects_empty_input() {
    assert_eq!(inspect(&[]), Err(ContainerFormatError::BadHeader));
}

#[test]
fn validate_gives_the_validated_parameters() {
    let chunk = FormatChunk { sample_rate: 48000, channels: 2, bits_per_sample: 16 };
    assert_eq!(
        validate(chunk),
        Ok(WavSpec { sample_rate: 48000, channels: 2, bits_per_sample: 16 })
    );
    let chunk = FormatChunk { sample_rate: 48000, channels: 0, bits_per_sample: 16 };
    assert_eq!(validate(chunk), Err(ContainerFormatError::UnsupportedLayout { channels: 0 }));
    let chunk = FormatChunk { sample_rate: 48000, channels: 2, bits_per_sample: 32 };
    assert_eq!(validate(chunk), Err(ContainerFormatError::UnsupportedBitDepth { bits: 32 }));
    let chunk = FormatChunk { sample_rate: 48000, channels: 256, bits_per_sample: 16 };
    assert_eq!(validate(chunk), Err(ContainerFormatError::UnsupportedLayout { channels: 256 }));
}

#[test]
fn open_container_reads_the_frames_in_order() {
    let samples = [10, -10, 20, -20, 30, -30, 40, -40];
    let bytes = container_bytes(2, 44100, 16, &container_samples(&samples));
    let mut reader = open_container(&bytes).expect("a valid container");
    let (left, right) = split_channels(&mut reader);
    assert_eq!(left, vec![10, 20, 30, 40]);
    assert_eq!(right, vec![-10, -20, -30, -40]);
    let (left, right) = split_channels(&mut reader);
    assert_eq!(left, Vec::<i16>::new());
    assert_eq!(right, Vec::<i16>::new());
}

#[test]
fn open_container_refuses_what_inspect_refuses() {
    let bytes = container_bytes(2, 44100, 8, &[1, 2]);
    assert_eq!(
        open_container(&bytes).err(),
        Some(ContainerFormatError::UnsupportedBitDepth { bits: 8 })
    );
    assert_eq!(open_container(b"RIFF").err(), Some(ContainerFormatError::BadHeader));
}

#[test]
fn data_cut_short_leaves_the_channels_balanced() {
    let whole = container_bytes(2, 44100, 16, &container_samples(&[1, 2, 3, 4, 5, 6]));
    let cut = &whole[..whole.len() - 5];
    let mut reader = open_container(cut).expect("the header is whole");
    let (left, right) = split_channels(&mut reader);
    assert_eq!(left, vec![1, 3]);
    assert_eq!(right, vec![2]);
}
