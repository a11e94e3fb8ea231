use tuner::wav::{
    WavError, WavFile, WavFormat, DATA_HEADER, FACT_HEADER, FMT_HEADER, PEAK_HEADER, RIFF_HEADER,
    RIFX_HEADER, WAVE_HEADER,
};

#[test]
fn headers() {
    assert_eq!(std::str::from_utf8(&RIFF_HEADER).unwrap(), "RIFF");
    assert_eq!(std::str::from_utf8(&RIFX_HEADER).unwrap(), "RIFX");
    assert_eq!(std::str::from_utf8(&PEAK_HEADER).unwrap(), "PEAK");
    assert_eq!(std::str::from_utf8(&FACT_HEADER).unwrap(), "fact");
    assert_eq!(std::str::from_utf8(&FMT_HEADER).unwrap(), "fmt ");
    assert_eq!(std::str::from_utf8(&WAVE_HEADER).unwrap(), "WAVE");
}

fn fmt_chunk(format: u16, extra: Option<&[u8]>) -> Vec<u8> {
    let mut v = Vec::new();
    v.extend_from_slice(&FMT_HEADER);
    let size: u32 = match extra {
        None => 16,
        Some(e) => 18 + e.len() as u32,
    };
    v.extend_from_slice(&size.to_le_bytes());
    v.extend_from_slice(&format.to_le_bytes());
    v.extend_from_slice(&1u16.to_le_bytes());
    v.extend_from_slice(&48000u32.to_le_bytes());
    v.extend_from_slice(&192000u32.to_le_bytes());
    v.extend_from_slice(&4u16.to_le_bytes());
    v.extend_from_slice(&32u16.to_le_bytes());
    if let Some(e) = extra {
        v.extend_from_slice(&(e.len() as u16).to_le_bytes());
        v.extend_from_slice(e);
    }
    v
}

fn data_chunk(bytes: &[u8]) -> Vec<u8> {
    let mut v = Vec::new();
    v.extend_from_slice(&DATA_HEADER);
    v.extend_from_slice(&(bytes.len() as u32).to_le_bytes());
    v.extend_from_slice(bytes);
    v
}

fn fact_chunk(samples: u32) -> Vec<u8> {
    let mut v = Vec::new();
    v.extend_from_slice(&FACT_HEADER);
    v.extend_from_slice(&4u32.to_le_bytes());
    v.extend_from_slice(&samples.to_le_bytes());
    v
}

fn container(chunks: &[Vec<u8>]) -> Vec<u8> {
    let body: Vec<u8> = chunks.iter().flatten().cloned().collect();
    let mut v = Vec::new();
    v.extend_from_slice(&RIFF_HEADER);
    v.extend_from_slice(&((body.len() + 4) as u32).to_le_bytes());
    v.extend_from_slice(&WAVE_HEADER);
    v.extend_from_slice(&body);
    v
}

#[test]
fn reads_float_container() {
    let samples: Vec<u8> = [0.5f32, -0.25f32].iter().flat_map(|s| s.to_le_bytes()).collect();
    let bytes = container(&[fmt_chunk(3, None), fact_chunk(2), data_chunk(&samples)]);
    let wav = WavFile::from_bytes(&bytes).unwrap();
    assert_eq!(wav.fmt_chunk.format, WavFormat::Float);
    assert_eq!(wav.fmt_chunk.sample_rate, 48000);
    assert_eq!(wav.fmt_chunk.byte_rate, 192000);
    assert_eq!(wav.fmt_chunk.bits_per_sample, 32);
    assert!(wav.fmt_chunk.extra_data.is_none());
    assert_eq!(wav.fact_chunk.as_ref().unwrap().data, 2);
    assert!(wav.peak_chunk.is_none());
    assert_eq!(wav.data_bytes(), &samples[..]);
    assert_eq!(wav.file_size as usize, bytes.len() - 8);
}

#[test]
fn reads_extra_fmt_data_and_keeps_last_data_chunk() {
    let bytes = container(&[
        data_chunk(&[1, 2]),
        fmt_chunk(1, Some(&[9, 8, 7])),
        data_chunk(&[3, 4, 5, 6]),
    ]);
    let wav = WavFile::from_bytes(&bytes).unwrap();
    assert_eq!(wav.fmt_chunk.format, WavFormat::PCM);
    assert_eq!(wav.fmt_chunk.extra_data.as_deref(), Some(&[9u8, 8, 7][..]));
    assert_eq!(wav.data_bytes(), &[3u8, 4, 5, 6][..]);
}

#[test]
fn rejects_size_mismatch() {
    let mut bytes = container(&[fmt_chunk(3, None), data_chunk(&[0, 0, 0, 0])]);
    bytes.push(0);
    assert!(matches!(WavFile::from_bytes(&bytes), Err(WavError::SizeMismatch)));
}

#[test]
fn rejects_bad_magic() {
    let mut bytes = container(&[fmt_chunk(3, None), data_chunk(&[0, 0, 0, 0])]);
    bytes[3] = b'X';
    assert!(matches!(WavFile::from_bytes(&bytes), Err(WavError::BadRiffHeader)));
    let mut bytes = container(&[fmt_chunk(3, None), data_chunk(&[0, 0, 0, 0])]);
    bytes[8] = b'w';
    assert!(matches!(WavFile::from_bytes(&bytes), Err(WavError::BadWaveHeader)));
}

#[test]
fn rejects_missing_chunks() {
    let bytes = container(&[data_chunk(&[0, 0, 0, 0])]);
    assert!(matches!(WavFile::from_bytes(&bytes), Err(WavError::MissingFmtChunk)));
    let bytes = container(&[fmt_chunk(3, None)]);
    assert!(matches!(WavFile::from_bytes(&bytes), Err(WavError::MissingDataChunk)));
}

#[test]
fn rejects_truncated_and_unknown() {
    assert!(matches!(WavFile::from_bytes(&[0x52, 0x49, 0x46]), Err(WavError::UnexpectedEof)));
    let mut bytes = container(&[fmt_chunk(3, None)]);
    bytes.extend_from_slice(b"LIST");
    let n = (bytes.len() - 8) as u32;
    bytes[4..8].copy_from_slice(&n.to_le_bytes());
    assert!(matches!(WavFile::from_bytes(&bytes), Err(WavError::UnsupportedChunk)));
    let bytes = container(&[fmt_chunk(2, None), data_chunk(&[0])]);
    assert!(matches!(WavFile::from_bytes(&bytes), Err(WavError::UnknownFormat)));
}

#[test]
fn format_tags() {
    assert_eq!(WavFormat::from_u16(1), Ok(WavFormat::PCM));
    assert_eq!(WavFormat::from_u16(3), Ok(WavFormat::Float));
    assert_eq!(WavFormat::from_u16(6), Ok(WavFormat::ALaw));
    assert_eq!(WavFormat::from_u16(7), Ok(WavFormat::MuLaw));
    assert_eq!(WavFormat::from_u16(0xFFFE), Ok(WavFormat::Extensible));
    assert_eq!(WavFormat::from_u16(2), Err(WavError::UnknownFormat));
}
