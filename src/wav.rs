use vstd::prelude::*;

verus! {

pub const RIFF_HEADER: [u8; 4] = [0x52, 0x49, 0x46, 0x46];

pub const RIFX_HEADER: [u8; 4] = [0x52, 0x49, 0x46, 0x58];

pub const WAVE_HEADER: [u8; 4] = [0x57, 0x41, 0x56, 0x45];

pub const FMT_HEADER: [u8; 4] = [0x66, 0x6D, 0x74, 0x20];

pub const FACT_HEADER: [u8; 4] = [0x66, 0x61, 0x63, 0x74];

pub const PEAK_HEADER: [u8; 4] = [0x50, 0x45, 0x41, 0x4B];

pub const DATA_HEADER: [u8; 4] = [0x64, 0x61, 0x74, 0x61];

/// The sample encodings a `fmt ` chunk may declare.
#[derive(Debug, Clone, Copy, PartialEq, Eq, Structural)]
pub enum WavFormat {
    PCM,
    Float,
    ALaw,
    MuLaw,
    Extensible,
    INVALID,
}

/// Why a container could not be read.
#[derive(Debug, Clone, Copy, PartialEq, Eq, Structural)]
pub enum WavError {
    /// The bytes end inside a header or a chunk.
    UnexpectedEof,
    /// The size in the RIFF header differs from the number of bytes that follow it.
    SizeMismatch,
    BadRiffHeader,
    BadWaveHeader,
    /// A `fmt ` chunk declares a format tag that is not known.
    UnknownFormat,
    /// A chunk id that is not `fmt `, `fact`, `PEAK` or `data`.
    UnsupportedChunk,
    MissingFmtChunk,
    MissingDataChunk,
}

/// The little-endian 16-bit value at `p`.
pub open spec fn u16_le(b: Seq<u8>, p: int) -> int {
    b[p] as int + 256 * b[p + 1] as int
}

/// The little-endian 32-bit value at `p`.
pub open spec fn u32_le(b: Seq<u8>, p: int) -> int {
    u16_le(b, p) + 65536 * u16_le(b, p + 2)
}

/// The four bytes at `p` are `id`.
pub open spec fn id_at(b: Seq<u8>, p: int, id: [u8; 4]) -> bool {
    &&& 0 <= p
    &&& p + 4 <= b.len()
    &&& b.subrange(p, p + 4) == id@
}

pub open spec fn format_of(tag: int) -> Option<WavFormat> {
    if tag == 1 {
        Some(WavFormat::PCM)
    } else if tag == 3 {
        Some(WavFormat::Float)
    } else if tag == 6 {
        Some(WavFormat::ALaw)
    } else if tag == 7 {
        Some(WavFormat::MuLaw)
    } else if tag == 0xFFFE {
        Some(WavFormat::Extensible)
    } else {
        None
    }
}

/// Where the body of a `fmt ` chunk that starts at `p` (after its id) ends: 4 bytes of
/// size, 16 of fields and, when the size is not 16, a 2-byte length and that many bytes.
pub open spec fn fmt_end(b: Seq<u8>, p: int) -> Option<int> {
    if p + 20 > b.len() || format_of(u16_le(b, p + 4)) is None {
        None
    } else if u32_le(b, p) == 16 {
        Some(p + 20)
    } else if p + 22 > b.len() || p + 22 + u16_le(b, p + 20) > b.len() {
        None
    } else {
        Some(p + 22 + u16_le(b, p + 20))
    }
}

/// Where the chunk whose id starts at `p` ends, when it is complete and of a known kind.
pub open spec fn chunk_end(b: Seq<u8>, p: int) -> Option<int> {
    if id_at(b, p, FMT_HEADER) {
        fmt_end(b, p + 4)
    } else if id_at(b, p, FACT_HEADER) {
        if p + 12 <= b.len() {
            Some(p + 12)
        } else {
            None
        }
    } else if id_at(b, p, PEAK_HEADER) {
        if p + 24 <= b.len() {
            Some(p + 24)
        } else {
            None
        }
    } else if id_at(b, p, DATA_HEADER) {
        if p + 8 <= b.len() && p + 8 + u32_le(b, p + 4) <= b.len() {
            Some(p + 8 + u32_le(b, p + 4))
        } else {
            None
        }
    } else {
        None
    }
}

/// The chunks from `p` to the end of `b` follow each other without a gap, each complete
/// and of a known kind.
pub open spec fn chunks_ok(b: Seq<u8>, p: int) -> bool
    decreases b.len() - p,
{
    if p < 0 || p >= b.len() {
        true
    } else {
        match chunk_end(b, p) {
            Some(e) => chunks_ok(b, e),
            None => false,
        }
    }
}

/// The position of the last chunk with id `id` among the chunks from `p` on.
pub open spec fn last_chunk(b: Seq<u8>, p: int, id: [u8; 4]) -> Option<int>
    decreases b.len() - p,
{
    if p < 0 || p >= b.len() {
        None
    } else {
        match chunk_end(b, p) {
            Some(e) => match last_chunk(b, e, id) {
                Some(q) => Some(q),
                None => if id_at(b, p, id) {
                    Some(p)
                } else {
                    None
                },
            },
            None => None,
        }
    }
}

/// The RIFF/WAVE header: magic bytes, and a size equal to the number of bytes after it.
pub open spec fn header_ok(b: Seq<u8>) -> bool {
    &&& b.len() >= 12
    &&& u32_le(b, 4) == b.len() - 8
    &&& id_at(b, 0, RIFF_HEADER)
    &&& id_at(b, 8, WAVE_HEADER)
}

/// A container that [`WavFile::from_bytes`] reads.
pub open spec fn container_ok(b: Seq<u8>) -> bool {
    &&& header_ok(b)
    &&& chunks_ok(b, 12)
    &&& last_chunk(b, 12, FMT_HEADER) is Some
    &&& last_chunk(b, 12, DATA_HEADER) is Some
}

/// The `fmt ` chunk: how the samples are encoded.
pub struct FmtChunk {
    pub chunk_size: u32,
    pub format: WavFormat,
    pub channels: u16,
    pub sample_rate: u32,
    pub byte_rate: u32,
    pub block_align: u16,
    pub bits_per_sample: u16,
    /// Present when the chunk size is not 16.
    pub extra_data: Option<Vec<u8>>,
}

/// The `fact` chunk; its value is typically the number of samples.
pub struct FactChunk {
    pub chunk_size: u32,
    pub data: u32,
}

pub struct PositionPeak {
    pub value: u32,
    pub position: u32,
}

/// The `PEAK` chunk.
pub struct PeakChunk {
    pub chunk_size: u32,
    pub version: u32,
    pub time_stamp: u32,
    pub peak: PositionPeak,
}

/// The `data` chunk: the raw sample bytes.
pub struct DataChunk {
    pub chunk_size: u32,
    pub data: Vec<u8>,
}

pub enum RiffChunk {
    Fmt(FmtChunk),
    Fact(FactChunk),
    Peak(PeakChunk),
    Data(DataChunk),
}

/// `c` holds the fields of the `fmt ` chunk body at `p`.
pub open spec fn fmt_read_from(c: FmtChunk, b: Seq<u8>, p: int) -> bool {
    &&& c.chunk_size == u32_le(b, p)
    &&& format_of(u16_le(b, p + 4)) == Some(c.format)
    &&& c.channels == u16_le(b, p + 6)
    &&& c.sample_rate == u32_le(b, p + 8)
    &&& c.byte_rate == u32_le(b, p + 12)
    &&& c.block_align == u16_le(b, p + 16)
    &&& c.bits_per_sample == u16_le(b, p + 18)
    &&& if u32_le(b, p) == 16 {
        c.extra_data is None
    } else {
        c.extra_data matches Some(x) && x@ == b.subrange(p + 22, p + 22 + u16_le(b, p + 20))
    }
}

pub open spec fn fact_read_from(c: FactChunk, b: Seq<u8>, p: int) -> bool {
    c.chunk_size == u32_le(b, p) && c.data == u32_le(b, p + 4)
}

pub open spec fn peak_read_from(c: PeakChunk, b: Seq<u8>, p: int) -> bool {
    &&& c.chunk_size == u32_le(b, p)
    &&& c.version == u32_le(b, p + 4)
    &&& c.time_stamp == u32_le(b, p + 8)
    &&& c.peak.value == u32_le(b, p + 12)
    &&& c.peak.position == u32_le(b, p + 16)
}

pub open spec fn data_read_from(c: DataChunk, b: Seq<u8>, p: int) -> bool {
    c.chunk_size == u32_le(b, p) && c.data@ == b.subrange(p + 4, p + 4 + u32_le(b, p))
}

/// `c` is the chunk whose id starts at `p`.
pub open spec fn chunk_read_from(c: RiffChunk, b: Seq<u8>, p: int) -> bool {
    match c {
        RiffChunk::Fmt(f) => id_at(b, p, FMT_HEADER) && fmt_read_from(f, b, p + 4),
        RiffChunk::Fact(f) => id_at(b, p, FACT_HEADER) && fact_read_from(f, b, p + 4),
        RiffChunk::Peak(k) => id_at(b, p, PEAK_HEADER) && peak_read_from(k, b, p + 4),
        RiffChunk::Data(d) => id_at(b, p, DATA_HEADER) && data_read_from(d, b, p + 4),
    }
}

/// A copy of `b[from..to]`.
fn copy_bytes(b: &[u8], from: usize, to: usize) -> (r: Vec<u8>)
    requires
        from <= to <= b@.len(),
    ensures
        r@ == b@.subrange(from as int, to as int),
{
    let mut r: Vec<u8> = Vec::with_capacity(to - from);
    let mut i = from;
    while i < to
        invariant
            from <= i <= to <= b@.len(),
            r@ == b@.subrange(from as int, i as int),
        decreases to - i,
    {
        r.push(b[i]);
        i = i + 1;
        assert(r@ =~= b@.subrange(from as int, i as int));
    }
    r
}

impl FmtChunk {
    /// Reads the body of a `fmt ` chunk starting at `p`; returns it and where it ends.
    pub fn read(b: &[u8], p: usize) -> (r: Result<(FmtChunk, usize), WavError>)
        ensures
            r is Ok <==> fmt_end(b@, p as int) is Some,
            r matches Ok((c, e)) ==> fmt_end(b@, p as int) == Some(e as int) && fmt_read_from(
                c,
                b@,
                p as int,
            ),
    {
        if p > b.len() || b.len() - p < 20 {
            return Err(WavError::UnexpectedEof);
        }
        let chunk_size = read_u32(b, p).unwrap();
        let format = WavFormat::from_u16(read_u16(b, p + 4).unwrap())?;
        let channels = read_u16(b, p + 6).unwrap();
        let sample_rate = read_u32(b, p + 8).unwrap();
        let byte_rate = read_u32(b, p + 12).unwrap();
        let block_align = read_u16(b, p + 16).unwrap();
        let bits_per_sample = read_u16(b, p + 18).unwrap();
        let mut end = p + 20;
        let extra_data = if chunk_size != 16 {
            let extra_size = match read_u16(b, p + 20) {
                Some(n) => n,
                None => {
                    return Err(WavError::UnexpectedEof);
                },
            };
            if b.len() - (p + 22) < extra_size as usize {
                return Err(WavError::UnexpectedEof);
            }
            end = p + 22 + extra_size as usize;
            Some(copy_bytes(b, p + 22, end))
        } else {
            None
        };
        let c = FmtChunk {
            chunk_size,
            format,
            channels,
            sample_rate,
            byte_rate,
            block_align,
            bits_per_sample,
            extra_data,
        };
        Ok((c, end))
    }
}

impl FactChunk {
    /// Reads the body of a `fact` chunk starting at `p`; returns it and where it ends.
    pub fn read(b: &[u8], p: usize) -> (r: Result<(FactChunk, usize), WavError>)
        ensures
            r is Ok <==> p + 8 <= b@.len(),
            r matches Ok((c, e)) ==> e == p + 8 && fact_read_from(c, b@, p as int),
    {
        if p > b.len() || b.len() - p < 8 {
            return Err(WavError::UnexpectedEof);
        }
        let chunk_size = read_u32(b, p).unwrap();
        let data = read_u32(b, p + 4).unwrap();
        Ok((FactChunk { chunk_size, data }, p + 8))
    }
}

impl PositionPeak {
    /// Reads a peak value and its position starting at `p`; returns it and where it ends.
    pub fn read(b: &[u8], p: usize) -> (r: Result<(PositionPeak, usize), WavError>)
        ensures
            r is Ok <==> p + 8 <= b@.len(),
            r matches Ok((c, e)) ==> e == p + 8 && c.value == u32_le(b@, p as int)
                && c.position == u32_le(b@, p + 4),
    {
        if p > b.len() || b.len() - p < 8 {
            return Err(WavError::UnexpectedEof);
        }
        let value = read_u32(b, p).unwrap();
        let position = read_u32(b, p + 4).unwrap();
        Ok((PositionPeak { value, position }, p + 8))
    }
}

impl PeakChunk {
    /// Reads the body of a `PEAK` chunk starting at `p`; returns it and where it ends.
    pub fn read(b: &[u8], p: usize) -> (r: Result<(PeakChunk, usize), WavError>)
        ensures
            r is Ok <==> p + 20 <= b@.len(),
            r matches Ok((c, e)) ==> e == p + 20 && peak_read_from(c, b@, p as int),
    {
        if p > b.len() || b.len() - p < 20 {
            return Err(WavError::UnexpectedEof);
        }
        let chunk_size = read_u32(b, p).unwrap();
        let version = read_u32(b, p + 4).unwrap();
        let time_stamp = read_u32(b, p + 8).unwrap();
        let (peak, end) = PositionPeak::read(b, p + 12)?;
        Ok((PeakChunk { chunk_size, version, time_stamp, peak }, end))
    }
}

impl DataChunk {
    /// Reads the body of a `data` chunk starting at `p`; returns it and where it ends.
    pub fn read(b: &[u8], p: usize) -> (r: Result<(DataChunk, usize), WavError>)
        ensures
            r is Ok <==> p + 4 <= b@.len() && p + 4 + u32_le(b@, p as int) <= b@.len(),
            r matches Ok((c, e)) ==> e == p + 4 + u32_le(b@, p as int) && data_read_from(
                c,
                b@,
                p as int,
            ),
    {
        let chunk_size = match read_u32(b, p) {
            Some(v) => v,
            None => {
                return Err(WavError::UnexpectedEof);
            },
        };
        if b.len() - (p + 4) < chunk_size as usize {
            return Err(WavError::UnexpectedEof);
        }
        let end = p + 4 + chunk_size as usize;
        let data = copy_bytes(b, p + 4, end);
        Ok((DataChunk { chunk_size, data }, end))
    }
}

/// Reads the chunk whose id starts at `p`; returns it and where it ends.
pub fn parse_chunk(b: &[u8], p: usize) -> (r: Result<(RiffChunk, usize), WavError>)
    ensures
        r is Ok <==> chunk_end(b@, p as int) is Some,
        r matches Ok((c, e)) ==> chunk_end(b@, p as int) == Some(e as int) && chunk_read_from(
            c,
            b@,
            p as int,
        ),
{
    if p > b.len() || b.len() - p < 4 {
        return Err(WavError::UnexpectedEof);
    }
    if has_id(b, p, FMT_HEADER) {
        let (c, e) = FmtChunk::read(b, p + 4)?;
        Ok((RiffChunk::Fmt(c), e))
    } else if has_id(b, p, PEAK_HEADER) {
        let (c, e) = PeakChunk::read(b, p + 4)?;
        Ok((RiffChunk::Peak(c), e))
    } else if has_id(b, p, FACT_HEADER) {
        let (c, e) = FactChunk::read(b, p + 4)?;
        Ok((RiffChunk::Fact(c), e))
    } else if has_id(b, p, DATA_HEADER) {
        let (c, e) = DataChunk::read(b, p + 4)?;
        Ok((RiffChunk::Data(c), e))
    } else {
        proof {
            assert(FMT_HEADER@ != PEAK_HEADER@ && FMT_HEADER@ != FACT_HEADER@ && FMT_HEADER@ != DATA_HEADER@);
        }
        Err(WavError::UnsupportedChunk)
    }
}

/// `s` when it is a position, else `a`: the last occurrence, given the last one
/// before (`a`) and the last one after (`s`).
pub open spec fn later(a: Option<int>, s: Option<int>) -> Option<int> {
    if s is Some {
        s
    } else {
        a
    }
}

/// A RIFF/WAVE container: its header and its chunks (the last of each kind).
pub struct WavFile {
    pub riff_header: [u8; 4],
    pub file_size: u32,
    pub wave_header: [u8; 4],
    pub fmt_chunk: FmtChunk,
    pub fact_chunk: Option<FactChunk>,
    pub peak_chunk: Option<PeakChunk>,
    pub data_chunk: DataChunk,
}

impl WavFile {
    /// Reads a container from its bytes. It is read when the header holds `RIFF`, a size
    /// equal to the number of bytes after it, and `WAVE`; the chunks that follow are
    /// complete and of a known kind; and there is a `fmt ` and a `data` chunk.
    pub fn from_bytes(b: &[u8]) -> (r: Result<WavFile, WavError>)
        ensures
            r is Ok <==> container_ok(b@),
            b@.len() < 8 ==> r == Err::<WavFile, WavError>(WavError::UnexpectedEof),
            b@.len() >= 8 && u32_le(b@, 4) != b@.len() - 8 ==> r == Err::<WavFile, WavError>(
                WavError::SizeMismatch,
            ),
            b@.len() >= 12 && u32_le(b@, 4) == b@.len() - 8 && !id_at(b@, 0, RIFF_HEADER) ==> r
                == Err::<WavFile, WavError>(WavError::BadRiffHeader),
            b@.len() >= 12 && u32_le(b@, 4) == b@.len() - 8 && id_at(b@, 0, RIFF_HEADER) && !id_at(
                b@,
                8,
                WAVE_HEADER,
            ) ==> r == Err::<WavFile, WavError>(WavError::BadWaveHeader),
            header_ok(b@) && chunks_ok(b@, 12) && last_chunk(b@, 12, FMT_HEADER) is None ==> r
                == Err::<WavFile, WavError>(WavError::MissingFmtChunk),
            header_ok(b@) && chunks_ok(b@, 12) && last_chunk(b@, 12, FMT_HEADER) is Some
                && last_chunk(b@, 12, DATA_HEADER) is None ==> r == Err::<WavFile, WavError>(
                WavError::MissingDataChunk,
            ),
            r matches Ok(w) ==> {
                &&& w.riff_header@ == RIFF_HEADER@
                &&& w.wave_header@ == WAVE_HEADER@
                &&& w.file_size == b@.len() - 8
                &&& fmt_read_from(w.fmt_chunk, b@, last_chunk(b@, 12, FMT_HEADER)->0 + 4)
                &&& data_read_from(w.data_chunk, b@, last_chunk(b@, 12, DATA_HEADER)->0 + 4)
                &&& (w.fact_chunk is Some <==> last_chunk(b@, 12, FACT_HEADER) is Some)
                &&& (w.fact_chunk matches Some(c) ==> fact_read_from(
                    c,
                    b@,
                    last_chunk(b@, 12, FACT_HEADER)->0 + 4,
                ))
                &&& (w.peak_chunk is Some <==> last_chunk(b@, 12, PEAK_HEADER) is Some)
                &&& (w.peak_chunk matches Some(c) ==> peak_read_from(
                    c,
                    b@,
                    last_chunk(b@, 12, PEAK_HEADER)->0 + 4,
                ))
            },
    {
        if b.len() < 8 {
            return Err(WavError::UnexpectedEof);
        }
        let file_size = read_u32(b, 4).unwrap();
        if file_size as u64 != (b.len() - 8) as u64 {
            return Err(WavError::SizeMismatch);
        }
        if b.len() < 12 {
            return Err(WavError::UnexpectedEof);
        }
        if !has_id(b, 0, RIFF_HEADER) {
            return Err(WavError::BadRiffHeader);
        }
        if !has_id(b, 8, WAVE_HEADER) {
            return Err(WavError::BadWaveHeader);
        }
        proof {
            assert(FMT_HEADER@ != PEAK_HEADER@ && FMT_HEADER@ != FACT_HEADER@ && FMT_HEADER@
                != DATA_HEADER@ && PEAK_HEADER@ != FACT_HEADER@ && PEAK_HEADER@ != DATA_HEADER@
                && FACT_HEADER@ != DATA_HEADER@);
        }
        let mut fmt_chunk: Option<FmtChunk> = None;
        let mut fact_chunk: Option<FactChunk> = None;
        let mut peak_chunk: Option<PeakChunk> = None;
        let mut data_chunk: Option<DataChunk> = None;
        let ghost mut fmt_at: Option<int> = None;
        let ghost mut fact_at: Option<int> = None;
        let ghost mut peak_at: Option<int> = None;
        let ghost mut data_at: Option<int> = None;
        let mut pos: usize = 12;
        while pos < b.len()
            invariant
                12 <= pos <= b@.len(),
                header_ok(b@),
                chunks_ok(b@, 12) == chunks_ok(b@, pos as int),
                last_chunk(b@, 12, FMT_HEADER) == later(fmt_at, last_chunk(b@, pos as int, FMT_HEADER)),
                last_chunk(b@, 12, FACT_HEADER) == later(fact_at, last_chunk(b@, pos as int, FACT_HEADER)),
                last_chunk(b@, 12, PEAK_HEADER) == later(peak_at, last_chunk(b@, pos as int, PEAK_HEADER)),
                last_chunk(b@, 12, DATA_HEADER) == later(data_at, last_chunk(b@, pos as int, DATA_HEADER)),
                fmt_chunk is Some <==> fmt_at is Some,
                fact_chunk is Some <==> fact_at is Some,
                peak_chunk is Some <==> peak_at is Some,
                data_chunk is Some <==> data_at is Some,
                fmt_chunk matches Some(c) ==> fmt_read_from(c, b@, fmt_at->0 + 4),
                fact_chunk matches Some(c) ==> fact_read_from(c, b@, fact_at->0 + 4),
                peak_chunk matches Some(c) ==> peak_read_from(c, b@, peak_at->0 + 4),
                data_chunk matches Some(c) ==> data_read_from(c, b@, data_at->0 + 4),
                FMT_HEADER@ != PEAK_HEADER@ && FMT_HEADER@ != FACT_HEADER@ && FMT_HEADER@
                    != DATA_HEADER@ && PEAK_HEADER@ != FACT_HEADER@ && PEAK_HEADER@ != DATA_HEADER@
                    && FACT_HEADER@ != DATA_HEADER@,
            decreases b@.len() - pos,
        {
            let (chunk, end) = parse_chunk(b, pos)?;
            proof {
                assert(end > pos) by {
                    assert(chunk_end(b@, pos as int) == Some(end as int));
                };
            }
            match chunk {
                RiffChunk::Fmt(c) => {
                    fmt_chunk = Some(c);
                    proof {
                        fmt_at = Some(pos as int);
                    }
                },
                RiffChunk::Fact(c) => {
                    fact_chunk = Some(c);
                    proof {
                        fact_at = Some(pos as int);
                    }
                },
                RiffChunk::Peak(c) => {
                    peak_chunk = Some(c);
                    proof {
                        peak_at = Some(pos as int);
                    }
                },
                RiffChunk::Data(c) => {
                    data_chunk = Some(c);
                    proof {
                        data_at = Some(pos as int);
                    }
                },
            }
            pos = end;
        }
        let fmt_chunk = match fmt_chunk {
            Some(c) => c,
            None => {
                return Err(WavError::MissingFmtChunk);
            },
        };
        let data_chunk = match data_chunk {
            Some(c) => c,
            None => {
                return Err(WavError::MissingDataChunk);
            },
        };
        Ok(WavFile {
            riff_header: RIFF_HEADER,
            file_size,
            wave_header: WAVE_HEADER,
            fmt_chunk,
            fact_chunk,
            peak_chunk,
            data_chunk,
        })
    }

    /// The bytes of the `data` chunk.
    pub fn data_bytes(&self) -> (r: &[u8])
        ensures
            r@ == self.data_chunk.data@,
    {
        self.data_chunk.data.as_slice()
    }
}

impl WavFormat {
    /// The format with tag `value`.
    pub fn from_u16(value: u16) -> (r: Result<WavFormat, WavError>)
        ensures
            r matches Ok(f) ==> format_of(value as int) == Some(f),
            r is Err <==> format_of(value as int) is None,
            r matches Err(e) ==> e == WavError::UnknownFormat,
    {
        match value {
            1 => Ok(WavFormat::PCM),
            3 => Ok(WavFormat::Float),
            6 => Ok(WavFormat::ALaw),
            7 => Ok(WavFormat::MuLaw),
            65534 => Ok(WavFormat::Extensible),
            _ => Err(WavError::UnknownFormat),
        }
    }
}

/// The little-endian 16-bit value at `p`, if two bytes are there.
fn read_u16(b: &[u8], p: usize) -> (r: Option<u16>)
    ensures
        r is Some <==> p + 2 <= b@.len(),
        r matches Some(v) ==> v == u16_le(b@, p as int),
{
    if p > b.len() || b.len() - p < 2 {
        return None;
    }
    Some(b[p] as u16 + 256 * b[p + 1] as u16)
}

/// The little-endian 32-bit value at `p`, if four bytes are there.
fn read_u32(b: &[u8], p: usize) -> (r: Option<u32>)
    ensures
        r is Some <==> p + 4 <= b@.len(),
        r matches Some(v) ==> v == u32_le(b@, p as int),
{
    if p > b.len() || b.len() - p < 4 {
        return None;
    }
    let lo = read_u16(b, p).unwrap();
    let hi = read_u16(b, p + 2).unwrap();
    Some(lo as u32 + 65536 * hi as u32)
}

/// Whether the four bytes at `p` are `id`.
fn has_id(b: &[u8], p: usize, id: [u8; 4]) -> (r: bool)
    ensures
        r == id_at(b@, p as int, id),
{
    if p > b.len() || b.len() - p < 4 {
        return false;
    }
    let r = b[p] == id[0] && b[p + 1] == id[1] && b[p + 2] == id[2] && b[p + 3] == id[3];
    assert(r == (b@.subrange(p as int, p + 4) =~= id@));
    r
}

} // verus!
