//! GGUF model-file header validation.
//!
//! A GGUF file begins with a little-endian header: 4 magic bytes, a 4-byte
//! version, an 8-byte tensor count and an 8-byte metadata key-value count.
//! Only the header is validated here; the tensor runtime consumes the rest.

use vstd::prelude::*;

verus! {

/// The GGUF magic value, the bytes "GGUF" read as a little-endian `u32`.
pub const GGUF_MAGIC: u32 = 0x46554747;

/// Reasons a file is rejected as a GGUF model.
#[derive(Debug, Clone, PartialEq, Eq)]
pub enum ModelError {
    /// The file could not be opened or read; carries the I/O error text.
    FileOpen(String),
    /// The magic bytes are wrong; carries the value that was read.
    InvalidMagic(u32),
    /// The header version is not a supported one; carries the version read.
    UnsupportedVersion(u32),
    /// The file is shorter than a full header.
    FileTooSmall,
}

/// What the header of a GGUF file declares.
#[derive(Debug, Clone, PartialEq, Eq)]
pub struct GgufMetadata {
    /// GGUF format version.
    pub version: u32,
    /// Number of tensors in the model.
    pub tensor_count: u64,
    /// Number of metadata key-value pairs.
    pub metadata_kv_count: u64,
}

/// The little-endian 32-bit value held in four bytes of `s` starting at `off`.
pub open spec fn spec_le32(s: Seq<u8>, off: int) -> u32
    recommends
        0 <= off,
        off + 4 <= s.len(),
{
    (s[off] + s[off + 1] * 0x100 + s[off + 2] * 0x10000 + s[off + 3] * 0x1000000) as u32
}

/// The little-endian 64-bit value held in eight bytes of `s` starting at `off`.
pub open spec fn spec_le64(s: Seq<u8>, off: int) -> u64
    recommends
        0 <= off,
        off + 8 <= s.len(),
{
    (s[off] + s[off + 1] * 0x100 + s[off + 2] * 0x10000 + s[off + 3] * 0x1000000 + s[off + 4]
        * 0x100000000 + s[off + 5] * 0x10000000000 + s[off + 6] * 0x1000000000000 + s[off + 7]
        * 0x100000000000000) as u64
}

fn read_le32(s: &[u8], off: usize) -> (r: u32)
    requires
        off + 4 <= s@.len(),
    ensures
        r == spec_le32(s@, off as int),
{
    let b0 = s[off] as u32;
    let b1 = s[off + 1] as u32;
    let b2 = s[off + 2] as u32;
    let b3 = s[off + 3] as u32;
    b0 + b1 * 0x100 + b2 * 0x10000 + b3 * 0x1000000
}

fn read_le64(s: &[u8], off: usize) -> (r: u64)
    requires
        off + 8 <= s@.len(),
    ensures
        r == spec_le64(s@, off as int),
{
    let b0 = s[off] as u64;
    let b1 = s[off + 1] as u64;
    let b2 = s[off + 2] as u64;
    let b3 = s[off + 3] as u64;
    let b4 = s[off + 4] as u64;
    let b5 = s[off + 5] as u64;
    let b6 = s[off + 6] as u64;
    let b7 = s[off + 7] as u64;
    b0 + b1 * 0x100 + b2 * 0x10000 + b3 * 0x1000000 + b4 * 0x100000000 + b5 * 0x10000000000 + b6
        * 0x1000000000000 + b7 * 0x100000000000000
}

/// What `validate_header` returns for the given bytes: too few bytes are
/// `FileTooSmall`; a wrong magic is `InvalidMagic` with the value read; a
/// version other than 2 or 3 is `UnsupportedVersion`; otherwise the header
/// fields, read little-endian.
pub open spec fn spec_validate_header(bytes: Seq<u8>) -> Result<GgufMetadata, ModelError> {
    if bytes.len() < 24 {
        Err(ModelError::FileTooSmall)
    } else if spec_le32(bytes, 0) != GGUF_MAGIC {
        Err(ModelError::InvalidMagic(spec_le32(bytes, 0)))
    } else if spec_le32(bytes, 4) < 2 || spec_le32(bytes, 4) > 3 {
        Err(ModelError::UnsupportedVersion(spec_le32(bytes, 4)))
    } else {
        Ok(
            GgufMetadata {
                version: spec_le32(bytes, 4),
                tensor_count: spec_le64(bytes, 8),
                metadata_kv_count: spec_le64(bytes, 16),
            },
        )
    }
}

/// Validate the leading bytes of a file as a GGUF header and report the
/// version, tensor count, and metadata key-value count exactly as the raw
/// bytes hold them.
pub fn validate_header(bytes: &[u8]) -> (r: Result<GgufMetadata, ModelError>)
    ensures
        r == spec_validate_header(bytes@),
{
    if bytes.len() < 24 {
        return Err(ModelError::FileTooSmall);
    }
    let magic = read_le32(bytes, 0);
    if magic != GGUF_MAGIC {
        return Err(ModelError::InvalidMagic(magic));
    }
    let version = read_le32(bytes, 4);
    if version < 2 || version > 3 {
        return Err(ModelError::UnsupportedVersion(version));
    }
    let tensor_count = read_le64(bytes, 8);
    let metadata_kv_count = read_le64(bytes, 16);
    Ok(GgufMetadata { version, tensor_count, metadata_kv_count })
}

/// The lower-cased extension of a file name: the characters after the last
/// dot, ASCII letters lowered; a name without a dot has none.
pub open spec fn spec_extension_lower(name: Seq<char>) -> Option<Seq<char>> {
    if exists|i: int| 0 <= i < name.len() && name[i] == '.' {
        let dot = last_dot(name, name.len() - 1);
        Some(name.subrange(dot + 1, name.len() as int).map_values(|c| crate::text::spec_ascii_lower(c)))
    } else {
        None
    }
}

/// The position of the last dot at or before `from` in `name`, where one
/// exists.
pub open spec fn last_dot(name: Seq<char>, from: int) -> int
    recommends
        exists|i: int| 0 <= i <= from && name[i] == '.',
    decreases from,
    when from >= 0
{
    if name[from] == '.' || from == 0 {
        from
    } else {
        last_dot(name, from - 1)
    }
}

/// Whether `name` has the `.gguf` extension (case-insensitive) and `header`
/// passes GGUF header validation.
pub fn is_gguf_file(name: &str, header: &[u8]) -> (r: bool)
    ensures
        r == ({
            &&& spec_extension_lower(name@) == Some("gguf"@)
            &&& spec_validate_header(header@) is Ok
        }),
{
    let chars = crate::text::str_chars(name);
    let ext = extension_lower(&chars);
    let ok_ext = match ext {
        Some(e) => {
            let gguf = crate::text::str_chars("gguf");
            proof {
                reveal_strlit("gguf");
            }
            chars_equal(&e, &gguf)
        },
        None => false,
    };
    if !ok_ext {
        return false;
    }
    match validate_header(header) {
        Ok(_) => true,
        Err(_) => false,
    }
}

/// Whether two character vectors hold the same characters.
fn chars_equal(a: &Vec<char>, b: &Vec<char>) -> (r: bool)
    ensures
        r == (a@ == b@),
{
    if a.len() != b.len() {
        return false;
    }
    let mut i: usize = 0;
    while i < a.len()
        invariant
            i <= a@.len(),
            a@.len() == b@.len(),
            forall|k: int| 0 <= k < i ==> a@[k] == b@[k],
        decreases a@.len() - i,
    {
        if a[i] != b[i] {
            return false;
        }
        i = i + 1;
    }
    proof {
        assert(a@ =~= b@);
    }
    true
}

/// The lower-cased extension of a file name, if it has one.
fn extension_lower(name: &Vec<char>) -> (r: Option<Vec<char>>)
    ensures
        match r {
            Some(e) => spec_extension_lower(name@) == Some(e@),
            None => spec_extension_lower(name@) is None,
        },
{
    let n = name.len();
    let mut i: usize = n;
    while i > 0
        invariant
            i <= n,
            n == name@.len(),
            forall|k: int| i <= k < n ==> name@[k] != '.',
        decreases i,
    {
        i = i - 1;
        if name[i] == '.' {
            proof {
                assert(last_dot(name@, name@.len() - 1) == i as int) by {
                    lemma_last_dot(name@, name@.len() - 1, i as int);
                }
            }
            let mut out: Vec<char> = Vec::new();
            let mut j: usize = i + 1;
            while j < n
                invariant
                    i + 1 <= j <= n,
                    n == name@.len(),
                    out@ == name@.subrange(i + 1, j as int).map_values(
                        |c| crate::text::spec_ascii_lower(c),
                    ),
                decreases n - j,
            {
                out.push(crate::text::ascii_lower(name[j]));
                proof {
                    assert(out@ =~= name@.subrange(i + 1, j + 1 as int).map_values(
                        |c| crate::text::spec_ascii_lower(c),
                    ));
                }
                j = j + 1;
            }
            proof {
                assert(name@.subrange(i + 1, name@.len() as int) =~= name@.subrange(
                    i + 1,
                    j as int,
                ));
            }
            return Some(out);
        }
    }
    proof {
        assert(forall|k: int| 0 <= k < name@.len() ==> name@[k] != '.');
    }
    None
}

proof fn lemma_last_dot(name: Seq<char>, from: int, i: int)
    requires
        0 <= i <= from < name.len(),
        name[i] == '.',
        forall|k: int| i < k <= from ==> name[k] != '.',
    ensures
        last_dot(name, from) == i,
    decreases from,
{
    if from == i {
    } else {
        lemma_last_dot(name, from - 1, i);
    }
}

} // verus!
