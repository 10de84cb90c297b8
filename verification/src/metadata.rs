//! Metadata of a standalone executable: a bytecode chunk appended to the end
//! of a binary, followed by its length and a magic marker.
//!
//! Layout of the chunk, from its first byte to the end of the binary:
//!
//! ```text
//! | bytecode (n bytes) | n as u64, big endian (8 bytes) | magic (8 bytes) |
//! ```

use vstd::prelude::*;

verus! {

/// Length in bytes of a magic marker.
pub const MAGIC_LEN: usize = 8;

/// Length in bytes of the trailer that follows the bytecode: size and magic.
pub const TRAILER_LEN: usize = 16;

/// The marker `cr3sc3nt`, which ends a standalone binary that keeps its console.
pub open spec fn magic_seq() -> Seq<u8> {
    seq![0x63u8, 0x72u8, 0x33u8, 0x73u8, 0x63u8, 0x33u8, 0x6eu8, 0x74u8]
}

/// The marker `cr5sc5nt`, which ends a standalone binary that runs without a console.
pub open spec fn magic_noconsole_seq() -> Seq<u8> {
    seq![0x63u8, 0x72u8, 0x35u8, 0x73u8, 0x63u8, 0x35u8, 0x6eu8, 0x74u8]
}

/// The marker that a binary built with the given console setting ends with.
pub open spec fn magic_for(no_console: bool) -> Seq<u8> {
    if no_console {
        magic_noconsole_seq()
    } else {
        magic_seq()
    }
}

/// The number that a sequence of bytes denotes when read in big-endian order.
pub open spec fn be_value(s: Seq<u8>) -> nat
    decreases s.len(),
{
    if s.len() == 0 {
        0
    } else {
        be_value(s.drop_last()) * 256 + s.last() as nat
    }
}

/// The eight bytes that denote `n` in big-endian order.
pub open spec fn be_bytes(n: u64) -> Seq<u8> {
    seq![
        (n / 0x1_00_0000_0000_0000) as u8,
        (n / 0x1_0000_0000_0000 % 256) as u8,
        (n / 0x1_00_0000_0000 % 256) as u8,
        (n / 0x1_0000_0000 % 256) as u8,
        (n / 0x1_00_0000 % 256) as u8,
        (n / 0x1_0000 % 256) as u8,
        (n / 0x1_00 % 256) as u8,
        (n % 256) as u8,
    ]
}

/// Whether `bytes` ends with `suffix`.
pub open spec fn ends_with(bytes: Seq<u8>, suffix: Seq<u8>) -> bool {
    bytes.len() >= suffix.len() && bytes.subrange(bytes.len() - suffix.len(), bytes.len() as int)
        == suffix
}

/// Whether `bytes` ends with one of the two magic markers.
pub open spec fn has_magic(bytes: Seq<u8>) -> bool {
    ends_with(bytes, magic_seq()) || ends_with(bytes, magic_noconsole_seq())
}

/// The bytecode size that the trailer of `bytes` declares.
pub open spec fn declared_size(bytes: Seq<u8>) -> nat
    recommends
        bytes.len() >= 16,
{
    be_value(bytes.subrange(bytes.len() - 16, bytes.len() - 8))
}

/// The metadata chunk for a bytecode and a marker.
pub open spec fn chunk(bytecode: Seq<u8>, magic: Seq<u8>) -> Seq<u8>
    recommends
        bytecode.len() <= u64::MAX,
{
    bytecode + be_bytes(bytecode.len() as u64) + magic
}

/// Why a sequence of bytes could not be read as a standalone binary.
#[derive(Debug, Clone, Copy, PartialEq, Eq, Structural)]
pub enum MetadataError {
    /// The bytes are shorter than a trailer or do not end with a magic marker.
    NotStandalone,
    /// The declared bytecode size does not fit in this machine's address space.
    SizeOverflow,
    /// The declared bytecode size is larger than what precedes the trailer.
    Truncated,
}

/// What reading `bytes` as a standalone binary gives.
pub open spec fn parse(bytes: Seq<u8>) -> Result<Seq<u8>, MetadataError> {
    if bytes.len() < 16 || !has_magic(bytes) {
        Err(MetadataError::NotStandalone)
    } else if declared_size(bytes) > usize::MAX {
        Err(MetadataError::SizeOverflow)
    } else if declared_size(bytes) + 16 > bytes.len() {
        Err(MetadataError::Truncated)
    } else {
        Ok(bytes.subrange(bytes.len() - 16 - declared_size(bytes), bytes.len() as int))
    }
}

/// Metadata for a standalone executable: the bytecode that the binary carries.
#[derive(Debug, Clone)]
pub struct Metadata {
    pub bytecode: Vec<u8>,
}

proof fn lemma_be_value_8(s: Seq<u8>)
    requires
        s.len() == 8,
    ensures
        be_value(s) == s[0] as nat * 0x1_00_0000_0000_0000 + s[1] as nat * 0x1_0000_0000_0000
            + s[2] as nat * 0x1_00_0000_0000 + s[3] as nat * 0x1_0000_0000 + s[4] as nat
            * 0x1_00_0000 + s[5] as nat * 0x1_0000 + s[6] as nat * 0x1_00 + s[7] as nat,
{
    let s7 = s.drop_last();
    let s6 = s7.drop_last();
    let s5 = s6.drop_last();
    let s4 = s5.drop_last();
    let s3 = s4.drop_last();
    let s2 = s3.drop_last();
    let s1 = s2.drop_last();
    let s0 = s1.drop_last();
    assert(be_value(s0) == 0);
    assert(be_value(s1) == s[0] as nat);
    assert(be_value(s2) == be_value(s1) * 256 + s[1] as nat);
    assert(be_value(s3) == be_value(s2) * 256 + s[2] as nat);
    assert(be_value(s4) == be_value(s3) * 256 + s[3] as nat);
    assert(be_value(s5) == be_value(s4) * 256 + s[4] as nat);
    assert(be_value(s6) == be_value(s5) * 256 + s[5] as nat);
    assert(be_value(s7) == be_value(s6) * 256 + s[6] as nat);
    assert(be_value(s) == be_value(s7) * 256 + s[7] as nat);
}

/// Reading the big-endian bytes of a number gives the number back.
pub proof fn lemma_be_round_trip(n: u64)
    ensures
        be_bytes(n).len() == 8,
        be_value(be_bytes(n)) == n,
{
    let s = be_bytes(n);
    lemma_be_value_8(s);
    assert(n == (n / 0x1_00_0000_0000_0000) * 0x1_00_0000_0000_0000 + (n / 0x1_0000_0000_0000
        % 256) * 0x1_0000_0000_0000 + (n / 0x1_00_0000_0000 % 256) * 0x1_00_0000_0000 + (n
        / 0x1_0000_0000 % 256) * 0x1_0000_0000 + (n / 0x1_00_0000 % 256) * 0x1_00_0000 + (n
        / 0x1_0000 % 256) * 0x1_0000 + (n / 0x1_00 % 256) * 0x1_00 + n % 256) by (bit_vector);
    assert(n / 0x1_00_0000_0000_0000 < 256) by (bit_vector);
}

/// Whether `bytes` ends with the eight bytes of `magic`.
fn slice_ends_with(bytes: &[u8], magic: &[u8; 8]) -> (res: bool)
    ensures
        res == ends_with(bytes@, magic@),
{
    let n = bytes.len();
    if n < 8 {
        return false;
    }
    let start: usize = n - 8;
    let mut i: usize = 0;
    while i < 8
        invariant
            n == bytes.len(),
            n >= 8,
            start == n - 8,
            i <= 8,
            forall|k: int| 0 <= k < i ==> bytes@[start + k] == magic@[k],
        decreases 8 - i,
    {
        if bytes[start + i] != magic[i] {
            assert(bytes@.subrange(n - 8, n as int)[i as int] != magic@[i as int]);
            return false;
        }
        i += 1;
    }
    assert(bytes@.subrange(n - 8, n as int) =~= magic@);
    true
}

/// The marker `cr3sc3nt`.
pub fn magic() -> (m: [u8; 8])
    ensures
        m@ == magic_seq(),
{
    let m: [u8; 8] = [0x63, 0x72, 0x33, 0x73, 0x63, 0x33, 0x6e, 0x74];
    assert(m@ =~= magic_seq());
    m
}

/// The marker `cr5sc5nt`.
pub fn magic_noconsole() -> (m: [u8; 8])
    ensures
        m@ == magic_noconsole_seq(),
{
    let m: [u8; 8] = [0x63, 0x72, 0x35, 0x73, 0x63, 0x35, 0x6e, 0x74];
    assert(m@ =~= magic_noconsole_seq());
    m
}

/// The eight bytes of `n` in big-endian order.
fn u64_to_be_bytes(n: u64) -> (bytes: [u8; 8])
    ensures
        bytes@ == be_bytes(n),
{
    assert(n / 0x1_00_0000_0000_0000 < 256) by (bit_vector);
    let bytes: [u8; 8] = [
        (n / 0x1_00_0000_0000_0000) as u8,
        (n / 0x1_0000_0000_0000 % 256) as u8,
        (n / 0x1_00_0000_0000 % 256) as u8,
        (n / 0x1_0000_0000 % 256) as u8,
        (n / 0x1_00_0000 % 256) as u8,
        (n / 0x1_0000 % 256) as u8,
        (n / 0x1_00 % 256) as u8,
        (n % 256) as u8,
    ];
    assert(bytes@ =~= be_bytes(n));
    bytes
}

/// The number that the eight bytes of `bytes` from `start` on denote in big-endian order.
fn u64_from_be_bytes(bytes: &[u8], start: usize) -> (n: u64)
    requires
        start + 8 <= bytes.len(),
    ensures
        n == be_value(bytes@.subrange(start as int, start + 8)),
{
    let ghost s = bytes@.subrange(start as int, start + 8);
    proof {
        lemma_be_value_8(s);
    }
    let b0: u64 = bytes[start] as u64;
    let b1: u64 = bytes[start + 1] as u64;
    let b2: u64 = bytes[start + 2] as u64;
    let b3: u64 = bytes[start + 3] as u64;
    let b4: u64 = bytes[start + 4] as u64;
    let b5: u64 = bytes[start + 5] as u64;
    let b6: u64 = bytes[start + 6] as u64;
    let b7: u64 = bytes[start + 7] as u64;
    assert(b0 == s[0] && b1 == s[1] && b2 == s[2] && b3 == s[3]);
    assert(b4 == s[4] && b5 == s[5] && b6 == s[6] && b7 == s[7]);
    b0 * 0x1_00_0000_0000_0000 + b1 * 0x1_0000_0000_0000 + b2 * 0x1_00_0000_0000 + b3
        * 0x1_0000_0000 + b4 * 0x1_00_0000 + b5 * 0x1_0000 + b6 * 0x1_00 + b7
}

/// The optimisation level at which the script of a standalone binary is compiled.
pub const OPTIMIZATION_LEVEL: u8 = 2;

/// The coverage level at which the script of a standalone binary is compiled.
pub const COVERAGE_LEVEL: u8 = 0;

/// The debug level at which the script of a standalone binary is compiled.
pub const DEBUG_LEVEL: u8 = 1;

/// The bytecode that the Luau compiler gives for a source text at the
/// given levels of optimisation, coverage and debug information.
pub uninterp spec fn luau_bytecode(source: Seq<u8>, optimization: u8, coverage: u8, debug: u8) -> Seq<
    u8,
>;

/// Calls `mlua::Compiler::compile` at the given levels. The compiler reads
/// nothing but the source and its options, so its output is named as a
/// function of them; nothing is claimed of what the bytecode holds.
#[verifier::external_body]
fn compile_script(source: &[u8], optimization: u8, coverage: u8, debug: u8) -> (bytecode: Vec<u8>)
    ensures
        bytecode@ == luau_bytecode(source@, optimization, coverage, debug),
{
    mlua::Compiler::new()
        .set_optimization_level(optimization)
        .set_coverage_level(coverage)
        .set_debug_level(debug)
        .compile(source)
}

impl Metadata {
    /// Whether `contents` is a standalone binary, and whether it is one that
    /// runs without a console.
    pub fn check_bytes(contents: &[u8]) -> (res: (bool, bool))
        ensures
            res.0 == has_magic(contents@),
            res.1 == ends_with(contents@, magic_noconsole_seq()),
    {
        let no_console = slice_ends_with(contents, &magic_noconsole());
        let is_standalone = slice_ends_with(contents, &magic()) || no_console;
        (is_standalone, no_console)
    }

    /// Appends the metadata chunk for `bytecode` to the binary `bin`.
    pub fn patch_bin(bin: Vec<u8>, bytecode: Vec<u8>, no_console: bool) -> (patched: Vec<u8>)
        ensures
            patched@ == bin@ + chunk(bytecode@, magic_for(no_console)),
    {
        let mut patched = bin;
        let meta = Metadata { bytecode };
        let marker = if no_console {
            magic_noconsole()
        } else {
            magic()
        };
        let tail = meta.to_bytes(marker);
        patched.extend_from_slice(tail.as_slice());
        assert(patched@ =~= bin@ + chunk(bytecode@, magic_for(no_console)));
        patched
    }

    /// Compiles `script` and appends its metadata chunk to the binary `bin`.
    pub fn create_patched_bin(bin: Vec<u8>, script: &[u8], no_console: bool) -> (patched: Vec<u8>)
        ensures
            patched@ == bin@ + chunk(
                luau_bytecode(script@, OPTIMIZATION_LEVEL, COVERAGE_LEVEL, DEBUG_LEVEL),
                magic_for(no_console),
            ),
    {
        let bytecode = compile_script(script, OPTIMIZATION_LEVEL, COVERAGE_LEVEL, DEBUG_LEVEL);
        Metadata::patch_bin(bin, bytecode, no_console)
    }

    /// Reads the metadata of a standalone binary from its bytes.
    ///
    /// The bytecode handed back starts where the trailer says the chunk
    /// starts and runs to the end of `bytes`, trailer included.
    pub fn from_bytes(bytes: &[u8]) -> (res: Result<Metadata, MetadataError>)
        ensures
            match parse(bytes@) {
                Ok(bytecode) => res is Ok && res->Ok_0.bytecode@ == bytecode,
                Err(e) => res == Err::<Metadata, MetadataError>(e),
            },
    {
        let n = bytes.len();
        let marked = slice_ends_with(bytes, &magic()) || slice_ends_with(
            bytes,
            &magic_noconsole(),
        );
        if n < 16 || !marked {
            return Err(MetadataError::NotStandalone);
        }
        let size = u64_from_be_bytes(bytes, n - 16);
        if size > usize::MAX as u64 {
            return Err(MetadataError::SizeOverflow);
        }
        let size = size as usize;
        if size > n - 16 {
            return Err(MetadataError::Truncated);
        }
        let chunk = vstd::slice::slice_subrange(bytes, n - 16 - size, n);
        Ok(Metadata { bytecode: vstd::slice::slice_to_vec(chunk) })
    }

    /// Writes the metadata chunk: the bytecode, its length as eight
    /// big-endian bytes, and the marker.
    pub fn to_bytes(&self, magic: [u8; 8]) -> (bytes: Vec<u8>)
        ensures
            bytes@ == chunk(self.bytecode@, magic@),
    {
        let mut bytes: Vec<u8> = Vec::new();
        bytes.extend_from_slice(self.bytecode.as_slice());
        let size = u64_to_be_bytes(self.bytecode.len() as u64);
        bytes.extend_from_slice(size.as_slice());
        bytes.extend_from_slice(magic.as_slice());
        assert(bytes@ =~= chunk(self.bytecode@, magic@));
        bytes
    }
}

/// What `to_bytes` writes, `from_bytes` reads back, also when the chunk
/// stands at the end of a longer binary: the chunk found is the whole of what
/// was written.
pub proof fn lemma_chunk_round_trip(prefix: Seq<u8>, bytecode: Seq<u8>, no_console: bool)
    requires
        prefix.len() + bytecode.len() + 16 <= usize::MAX,
    ensures
        parse(prefix + chunk(bytecode, magic_for(no_console))) == Ok::<Seq<u8>, MetadataError>(
            chunk(bytecode, magic_for(no_console)),
        ),
        has_magic(prefix + chunk(bytecode, magic_for(no_console))),
        ends_with(prefix + chunk(bytecode, magic_for(no_console)), magic_noconsole_seq())
            == no_console,
{
    let magic = magic_for(no_console);
    let size = be_bytes(bytecode.len() as u64);
    let whole = prefix + chunk(bytecode, magic);
    let n = whole.len() as int;
    lemma_be_round_trip(bytecode.len() as u64);
    assert(magic.len() == 8);
    assert(n == prefix.len() + bytecode.len() + 16);
    assert(whole.subrange(n - 8, n) =~= magic);
    assert(whole.subrange(n - 16, n - 8) =~= size);
    assert(magic_seq()[2] != magic_noconsole_seq()[2]);
    assert(whole.subrange(n - 16 - bytecode.len(), n) =~= chunk(bytecode, magic));
}

} // verus!
