use phantom_core::error::PipelineError;
use phantom_core::sample::Sample;
use phantom_core::wav::{samples_to_wav, CHANNELS, HEADER_LEN, SAMPLE_RATE};

fn samples(values: &[f32]) -> Vec<Sample> {
    values.iter().map(|v| Sample::from_bits(v.to_bits()).unwrap()).collect()
}

fn hound_encoding(values: &[f32], sample_rate: u32, channels: u16) -> Vec<u8> {
    let spec = hound::WavSpec {
        channels,
        sample_rate,
        bits_per_sample: 32,
        sample_format: hound::SampleFormat::Float,
    };
    let mut cursor = std::io::Cursor::new(Vec::new());
    {
        let mut writer = hound::WavWriter::new(&mut cursor, spec).unwrap();
        for v in values {
            writer.write_sample(*v).unwrap();
        }
        writer.finalize().unwrap();
    }
    cursor.into_inner()
}

#[test]
fn container_has_the_expected_bytes() {
    let bytes = samples_to_wav(&samples(&[0.1, -0.2, 0.3]), 44100, 1).unwrap();
    let expected: Vec<u8> = vec![
        0x52, 0x49, 0x46, 0x46, 72, 0, 0, 0, 0x57, 0x41, 0x56, 0x45, // RIFF, size, WAVE
        0x66, 0x6d, 0x74, 0x20, 40, 0, 0, 0, // fmt, 40
        0xfe, 0xff, 1, 0, // extensible, one channel
        0x44, 0xac, 0, 0, // 44100
        0x10, 0xb1, 0x02, 0, // 176400 bytes a second
        4, 0, 32, 0, // block of 4 bytes, 32 bits
        22, 0, 32, 0, // extension of 22 bytes, 32 valid bits
        1, 0, 0, 0, // channel mask
        0x03, 0x00, 0x00, 0x00, 0x00, 0x00, 0x10, 0x00, 0x80, 0x00, 0x00, 0xaa, 0x00, 0x38, 0x9b,
        0x71, // float
        0x64, 0x61, 0x74, 0x61, 12, 0, 0, 0, // data, 12
        0xcd, 0xcc, 0xcc, 0x3d, // 0.1
        0xcd, 0xcc, 0x4c, 0xbe, // -0.2
        0x9a, 0x99, 0x99, 0x3e, // 0.3
    ];
    assert_eq!(bytes, expected);
    assert_eq!(bytes.len(), HEADER_LEN + 12);
}

#[test]
fn container_equals_what_hound_writes() {
    let cases: Vec<(Vec<f32>, u32, u16)> = vec![
        (vec![], 44100, 1),
        (vec![0.1, -0.2, 0.3], 44100, 1),
        (vec![0.0, -0.0, 1.0, -1.0, 0.5, 1.0e-40], 48000, 2),
        (vec![0.25; 36], 8000, 18),
        (vec![-0.75; 40], 96000, 20),
        (vec![0.125; 7], 1, 7),
    ];
    for (values, rate, channels) in cases {
        let ours = samples_to_wav(&samples(&values), rate, channels).unwrap();
        assert_eq!(ours, hound_encoding(&values, rate, channels));
    }
}

#[test]
fn round_trip_through_a_standard_decoder_is_bit_exact() {
    let values: Vec<f32> =
        vec![0.1, -0.2, 0.3, 0.0, -0.0, 1.0, -1.0, f32::MIN_POSITIVE, 1.0e-40, 0.99999994];
    let bytes = samples_to_wav(&samples(&values), SAMPLE_RATE, CHANNELS).unwrap();
    let mut reader = hound::WavReader::new(std::io::Cursor::new(bytes)).unwrap();
    let spec = reader.spec();
    assert_eq!(spec.channels, 1);
    assert_eq!(spec.sample_rate, 44100);
    assert_eq!(spec.bits_per_sample, 32);
    assert_eq!(spec.sample_format, hound::SampleFormat::Float);
    assert_eq!(reader.len(), values.len() as u32);
    let decoded: Vec<u32> = reader.samples::<f32>().map(|s| s.unwrap().to_bits()).collect();
    let written: Vec<u32> = values.iter().map(|v| v.to_bits()).collect();
    assert_eq!(decoded, written);
}

#[test]
fn round_trip_of_every_normalized_signed_sample() {
    let all: Vec<Sample> =
        (i16::MIN..=i16::MAX).map(phantom_core::normalize::normalize_i16).collect();
    let bytes = samples_to_wav(&all, 44100, 1).unwrap();
    assert_eq!(bytes.len(), 68 + 4 * 65536);
    let mut reader = hound::WavReader::new(std::io::Cursor::new(bytes)).unwrap();
    let decoded: Vec<u32> = reader.samples::<f32>().map(|s| s.unwrap().to_bits()).collect();
    let written: Vec<u32> = all.iter().map(|s| s.to_bits()).collect();
    assert_eq!(decoded, written);
}

#[test]
fn encoding_is_deterministic() {
    let input = samples(&[0.5, -0.5, 0.25]);
    assert_eq!(samples_to_wav(&input, 44100, 1), samples_to_wav(&input, 44100, 1));
}

#[test]
fn empty_input_gives_a_bare_header() {
    let bytes = samples_to_wav(&[], 44100, 1).unwrap();
    assert_eq!(bytes.len(), 68);
    assert_eq!(&bytes[4..8], &[60, 0, 0, 0]);
    assert_eq!(&bytes[64..68], &[0, 0, 0, 0]);
}

#[test]
fn parameters_that_no_header_holds_are_refused() {
    let two = samples(&[0.1, 0.2]);
    let three = samples(&[0.1, 0.2, 0.3]);
    assert_eq!(samples_to_wav(&two, 44100, 0), Err(PipelineError::EncodingFailed));
    assert_eq!(samples_to_wav(&two, 0, 1), Err(PipelineError::EncodingFailed));
    assert_eq!(samples_to_wav(&three, 44100, 2), Err(PipelineError::EncodingFailed));
    assert_eq!(samples_to_wav(&two, u32::MAX, 2), Err(PipelineError::EncodingFailed));
    assert_eq!(samples_to_wav(&[], 44100, 16384), Err(PipelineError::EncodingFailed));
    assert_eq!(samples_to_wav(&[], 1073741824, 1), Err(PipelineError::EncodingFailed));
    assert!(samples_to_wav(&[], 1073741823, 1).is_ok());
    assert!(samples_to_wav(&[], 65537, 16383).is_ok());
    assert!(samples_to_wav(&two, 44100, 2).is_ok());
}
