use vstd::prelude::*;

verus! {

/// The CRC-64/ECMA-182 checksum of a byte sequence.
pub uninterp spec fn crc64_ecma(bytes: Seq<u8>) -> u64;

/// Relies on `crc::Crc::<u64>::checksum` with the `CRC_64_ECMA_182`
/// algorithm: the checksum of the bytes given.
#[verifier::external_body]
fn checksum(bytes: &Vec<u8>) -> (r: u64)
    ensures
        r == crc64_ecma(bytes@),
{
    crc::Crc::<u64>::new(&crc::CRC_64_ECMA_182).checksum(bytes.as_slice())
}

/// How files are told apart.
#[derive(Clone, Debug, PartialEq, Eq)]
pub enum FingerprintStrategy {
    /// A checksum of `bytes` bytes after a header of `ignored_header_bytes`.
    Checksum { bytes: usize, ignored_header_bytes: usize },
    /// A checksum of the first line after a header of `ignored_header_bytes`.
    FirstLineChecksum { ignored_header_bytes: usize },
    /// The device and inode numbers.
    DevInode,
}

/// Settings for fingerprinting files.
#[derive(Clone, Debug, PartialEq, Eq)]
pub struct Fingerprinter {
    pub strategy: FingerprintStrategy,
    pub max_line_length: usize,
    pub ignore_not_found: bool,
}

/// What identifies a file.
#[derive(Clone, Copy, Debug, PartialEq, Eq, Hash, Structural)]
pub enum FileFingerprint {
    BytesChecksum(u64),
    FirstLineChecksum(u64),
    DevInode(u64, u64),
    Unknown(u64),
}

/// `x` shifted right by `k` bytes.
pub open spec fn shifted(x: nat, k: nat) -> nat
    decreases k,
{
    if k == 0 { x } else { shifted(x, (k - 1) as nat) / 256 }
}

/// The eight bytes of `x`, most significant first.
pub open spec fn be_bytes(x: u64) -> Seq<u8> {
    Seq::new(8, |i: int| (shifted(x as nat, (7 - i) as nat) % 256) as u8)
}

/// Appends the eight bytes of `x`, most significant first.
fn push_be_bytes(out: &mut Vec<u8>, x: u64)
    ensures
        final(out)@ == old(out)@ + be_bytes(x),
{
    let mut bytes: Vec<u8> = vec![0u8, 0u8, 0u8, 0u8, 0u8, 0u8, 0u8, 0u8];
    let mut y: u64 = x;
    let mut k: usize = 0;
    while k < 8
        invariant
            k <= 8,
            bytes@.len() == 8,
            y as nat == shifted(x as nat, k as nat),
            forall|i: int| 8 - k <= i < 8 ==> #[trigger] bytes@[i] == be_bytes(x)[i],
        decreases 8 - k,
    {
        bytes.set(7 - k, (y % 256) as u8);
        y = y / 256;
        k = k + 1;
    }
    let mut i: usize = 0;
    let ghost start = out@;
    while i < 8
        invariant
            i <= 8,
            bytes@.len() == 8,
            forall|j: int| 0 <= j < 8 ==> #[trigger] bytes@[j] == be_bytes(x)[j],
            out@ == start + be_bytes(x).take(i as int),
        decreases 8 - i,
    {
        out.push(bytes[i]);
        proof {
            assert(be_bytes(x).take(i + 1) =~= be_bytes(x).take(i as int).push(be_bytes(x)[i as int]));
        }
        i = i + 1;
    }
    proof {
        assert(be_bytes(x).take(8) =~= be_bytes(x));
    }
}

impl FileFingerprint {
    /// The single number older releases used as the fingerprint: the
    /// checksum itself, or for a device and inode the checksum of their
    /// sixteen big-endian bytes.
    pub fn to_legacy(&self) -> (r: u64)
        ensures
            r == match *self {
                FileFingerprint::BytesChecksum(c) => c,
                FileFingerprint::FirstLineChecksum(c) => c,
                FileFingerprint::DevInode(dev, ino) => crc64_ecma(be_bytes(dev) + be_bytes(ino)),
                FileFingerprint::Unknown(c) => c,
            },
    {
        match self {
            FileFingerprint::BytesChecksum(c) => *c,
            FileFingerprint::FirstLineChecksum(c) => *c,
            FileFingerprint::DevInode(dev, ino) => {
                let mut buf: Vec<u8> = Vec::with_capacity(16);
                push_be_bytes(&mut buf, *dev);
                push_be_bytes(&mut buf, *ino);
                checksum(&buf)
            },
            FileFingerprint::Unknown(c) => *c,
        }
    }
}

impl From<u64> for FileFingerprint {
    fn from(c: u64) -> (r: FileFingerprint)
        ensures
            r == FileFingerprint::Unknown(c),
    {
        FileFingerprint::Unknown(c)
    }
}

impl vstd::std_specs::convert::FromSpecImpl<u64> for FileFingerprint {
    open spec fn obeys_from_spec() -> bool {
        true
    }

    open spec fn from_spec(c: u64) -> FileFingerprint {
        FileFingerprint::Unknown(c)
    }
}

impl Fingerprinter {
    /// The fingerprint of a file whose leading bytes, after the header,
    /// are `buffer`, under the checksum strategy.
    pub fn bytes_fingerprint(buffer: &Vec<u8>) -> (r: FileFingerprint)
        ensures
            r == FileFingerprint::BytesChecksum(crc64_ecma(buffer@)),
    {
        FileFingerprint::BytesChecksum(checksum(buffer))
    }

    /// The fingerprint of a file whose first line, after the header and
    /// padded with zero bytes, is `buffer`, under the first-line strategy.
    pub fn first_line_fingerprint(buffer: &Vec<u8>) -> (r: FileFingerprint)
        ensures
            r == FileFingerprint::FirstLineChecksum(crc64_ecma(buffer@)),
    {
        FileFingerprint::FirstLineChecksum(checksum(buffer))
    }
}

/// `s` without its leading zero bytes.
pub open spec fn skip_nuls(s: Seq<u8>) -> Seq<u8>
    decreases s.len(),
{
    if s.len() > 0 && s[0] == 0 { skip_nuls(s.drop_first()) } else { s }
}

/// `s` without its leading `delim` bytes.
pub open spec fn skip_delims(s: Seq<u8>, delim: u8) -> Seq<u8>
    decreases s.len(),
{
    if s.len() > 0 && s[0] == delim { skip_delims(s.drop_first(), delim) } else { s }
}

/// Whether `s` holds the byte `b`.
pub open spec fn has_byte(s: Seq<u8>, b: u8) -> bool {
    exists|i: int| 0 <= i < s.len() && s[i] == b
}

/// `s` up to and including its first `delim`, or all of `s` where it has
/// none.
pub open spec fn line_part(s: Seq<u8>, delim: u8) -> Seq<u8>
    decreases s.len(),
{
    if s.len() == 0 {
        s
    } else if s[0] == delim {
        seq![delim]
    } else {
        seq![s[0]] + line_part(s.drop_first(), delim)
    }
}

/// What a chunk read from a file adds to the line: its leading zero bytes
/// are skipped, then its leading delimiters, then it counts up to and
/// including the next delimiter.
pub open spec fn chunk_contribution(chunk: Seq<u8>, delim: u8) -> Seq<u8> {
    line_part(skip_delims(skip_nuls(chunk), delim), delim)
}

/// Whether the chunk completes the line.
pub open spec fn chunk_ends_line(chunk: Seq<u8>, delim: u8) -> bool {
    has_byte(skip_delims(skip_nuls(chunk), delim), delim)
}

proof fn lemma_skip_step(s: Seq<u8>, i: int)
    requires
        0 <= i < s.len(),
    ensures
        s.skip(i).drop_first() == s.skip(i + 1),
        s.skip(i)[0] == s[i],
{
    assert(s.skip(i).drop_first() =~= s.skip(i + 1));
}

proof fn lemma_line_part_split(s: Seq<u8>, delim: u8, j: int)
    requires
        0 <= j <= s.len(),
        forall|k: int| 0 <= k < j ==> s[k] != delim,
    ensures
        line_part(s, delim) == s.take(j) + line_part(s.skip(j), delim),
        has_byte(s, delim) == has_byte(s.skip(j), delim),
    decreases j,
{
    if j == 0 {
        assert(s.skip(0) =~= s);
        assert(s.take(0) + line_part(s, delim) =~= line_part(s, delim));
    } else {
        let t = s.drop_first();
        assert forall|k: int| 0 <= k < j - 1 implies t[k] != delim by {
            assert(t[k] == s[k + 1]);
        }
        lemma_line_part_split(t, delim, j - 1);
        assert(t.skip(j - 1) =~= s.skip(j));
        assert(s.take(j) =~= seq![s[0]] + t.take(j - 1));
        assert(seq![s[0]] + (t.take(j - 1) + line_part(s.skip(j), delim)) =~= s.take(j) + line_part(s.skip(j), delim));
        if has_byte(s, delim) {
            let i = choose|i: int| 0 <= i < s.len() && s[i] == delim;
            assert(i >= j);
            assert(s.skip(j)[i - j] == delim);
        }
        if has_byte(s.skip(j), delim) {
            let i = choose|i: int| 0 <= i < s.skip(j).len() && s.skip(j)[i] == delim;
            assert(s[i + j] == delim);
        }
    }
}

/// Reading the first line of a file into a buffer of fixed size, one chunk
/// at a time. The caller reads; this decides what each chunk contributes.
pub struct LineReader {
    kept: Vec<u8>,
    capacity: usize,
    delim: u8,
}

impl LineReader {
    /// The bytes of the line gathered so far.
    pub closed spec fn spec_kept(&self) -> Seq<u8> {
        self.kept@
    }

    /// The size of the buffer.
    pub closed spec fn spec_capacity(&self) -> nat {
        self.capacity as nat
    }

    /// The byte that ends a line.
    pub closed spec fn spec_delim(&self) -> u8 {
        self.delim
    }

    /// What is gathered never exceeds the buffer.
    pub closed spec fn wf(&self) -> bool {
        self.kept@.len() <= self.capacity
    }

    /// A reader for a buffer of `capacity` bytes and lines ending in `delim`.
    pub fn new(capacity: usize, delim: u8) -> (r: LineReader)
        ensures
            r.wf(),
            r.spec_kept().len() == 0,
            r.spec_capacity() == capacity,
            r.spec_delim() == delim,
    {
        LineReader { kept: Vec::new(), capacity, delim }
    }

    /// How many bytes the next read may bring; none once the buffer is full.
    pub fn room(&self) -> (r: usize)
        requires
            self.wf(),
        ensures
            r == self.spec_capacity() - self.spec_kept().len(),
    {
        self.capacity - self.kept.len()
    }

    /// Takes in a chunk that was read, adding what it contributes to the
    /// line. Returns whether the line is complete: the chunk held its end.
    pub fn take_chunk(&mut self, chunk: &Vec<u8>) -> (done: bool)
        requires
            old(self).wf(),
            0 < chunk@.len() <= old(self).spec_capacity() - old(self).spec_kept().len(),
        ensures
            final(self).wf(),
            final(self).spec_kept() == old(self).spec_kept() + chunk_contribution(chunk@, old(self).spec_delim()),
            final(self).spec_capacity() == old(self).spec_capacity(),
            final(self).spec_delim() == old(self).spec_delim(),
            done == chunk_ends_line(chunk@, old(self).spec_delim()),
    {
        let ghost c = chunk@;
        let n = chunk.len();
        let mut i: usize = 0;
        proof {
            assert(c.skip(0) =~= c);
        }
        while i < n && chunk[i] == 0
            invariant
                i <= n,
                n == c.len(),
                c == chunk@,
                skip_nuls(c) == skip_nuls(c.skip(i as int)),
            decreases n - i,
        {
            proof {
                lemma_skip_step(c, i as int);
            }
            i = i + 1;
        }
        proof {
            if i < n {
                lemma_skip_step(c, i as int);
            }
        }
        let ghost after_nuls = c.skip(i as int);
        assert(skip_nuls(c) == after_nuls);
        while i < n && chunk[i] == self.delim
            invariant
                i <= n,
                n == c.len(),
                c == chunk@,
                skip_delims(skip_nuls(c), self.delim) == skip_delims(c.skip(i as int), self.delim),
            decreases n - i,
        {
            proof {
                lemma_skip_step(c, i as int);
            }
            i = i + 1;
        }
        proof {
            if i < n {
                lemma_skip_step(c, i as int);
            }
        }
        let ghost rest = c.skip(i as int);
        assert(skip_delims(skip_nuls(c), self.delim) == rest);
        let ghost start = self.kept@;
        let mut j: usize = i;
        proof {
            assert(rest.take(0) =~= Seq::<u8>::empty());
            assert(start + rest.take(0) =~= start);
        }
        while j < n && chunk[j] != self.delim
            invariant
                i <= j <= n,
                n == c.len(),
                c == chunk@,
                rest == c.skip(i as int),
                self.kept@ == start + rest.take(j - i),
                forall|k: int| 0 <= k < j - i ==> rest[k] != self.delim,
                self.delim == old(self).delim,
                self.capacity == old(self).capacity,
                start == old(self).kept@,
            decreases n - j,
        {
            self.kept.push(chunk[j]);
            proof {
                assert(rest.take(j + 1 - i) =~= rest.take(j - i).push(c[j as int]));
            }
            j = j + 1;
        }
        proof {
            lemma_line_part_split(rest, self.delim, j - i);
        }
        if j < n {
            self.kept.push(self.delim);
            proof {
                let tail = rest.skip(j - i);
                assert(tail[0] == self.delim);
                assert(line_part(tail, self.delim) =~= seq![self.delim]);
                assert(self.kept@ =~= start + line_part(rest, self.delim));
                assert(has_byte(tail, self.delim));
            }
            true
        } else {
            proof {
                let tail = rest.skip(j - i);
                assert(tail.len() == 0);
                assert(rest.take(j - i) + line_part(tail, self.delim) =~= rest.take(j - i));
                assert(!has_byte(tail, self.delim));
            }
            false
        }
    }

    /// The buffer: the line gathered, then zero bytes up to its size.
    pub fn into_buffer(self) -> (r: Vec<u8>)
        requires
            self.wf(),
        ensures
            r@.len() == self.spec_capacity(),
            r@.take(self.spec_kept().len() as int) == self.spec_kept(),
            forall|k: int| self.spec_kept().len() <= k < r@.len() ==> #[trigger] r@[k] == 0,
    {
        let mut buf = self.kept;
        let ghost kept = buf@;
        while buf.len() < self.capacity
            invariant
                kept.len() <= buf@.len() <= self.capacity,
                buf@.take(kept.len() as int) == kept,
                forall|k: int| kept.len() <= k < buf@.len() ==> #[trigger] buf@[k] == 0,
            decreases self.capacity - buf@.len(),
        {
            buf.push(0);
            proof {
                assert(buf@.take(kept.len() as int) =~= kept);
            }
        }
        buf
    }
}

/// Why fingerprinting a file failed.
#[derive(Clone, Copy, Debug, PartialEq, Eq, Structural)]
pub enum ReadFailure {
    /// The file ended before enough bytes were read.
    UnexpectedEof,
    /// The file does not exist.
    NotFound,
    /// Any other failure.
    Other,
}

/// What to report about a failure.
#[derive(Clone, Copy, Debug, PartialEq, Eq, Structural)]
pub enum FailureReport {
    /// Report that the file is too small to checksum, and remember it.
    ChecksumFailed,
    /// Report that the file could not be read.
    ReadFailed,
    /// Report nothing.
    Silent,
}

impl Fingerprinter {
    /// What to report when fingerprinting a file failed: a short file once
    /// (`known_small` says it was reported before), a missing file unless
    /// missing files are ignored, and any other failure always.
    pub fn report_for(&self, failure: ReadFailure, known_small: bool) -> (r: FailureReport)
        ensures
            r == match failure {
                ReadFailure::UnexpectedEof => if known_small { FailureReport::Silent } else { FailureReport::ChecksumFailed },
                ReadFailure::NotFound => if self.ignore_not_found { FailureReport::Silent } else { FailureReport::ReadFailed },
                ReadFailure::Other => FailureReport::ReadFailed,
            },
    {
        match failure {
            ReadFailure::UnexpectedEof => if known_small { FailureReport::Silent } else { FailureReport::ChecksumFailed },
            ReadFailure::NotFound => if self.ignore_not_found { FailureReport::Silent } else { FailureReport::ReadFailed },
            ReadFailure::Other => FailureReport::ReadFailed,
        }
    }
}

} // verus!
