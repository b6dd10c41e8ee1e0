use vstd::prelude::*;
use crate::flat::{page_message, PageError};
use crate::text::{append_decimal, append_hex2, append_str, decimal, hex2, string_from_chars};

verus! {

/// Format version of canvas files; the byte after the magic.
pub const CANVAS_FILE_VERSION: u8 = 5;

/// Extension of canvas files ("open whiteboard objects").
pub const CANVAS_FILE_EXT: &'static str = "owo";

/// The bytes that open every canvas file: "UWU" and the format version.
pub open spec fn spec_header() -> Seq<u8> {
    seq![85u8, 87u8, 85u8, CANVAS_FILE_VERSION]
}

/// The magic bytes "UWU" that open a canvas file.
pub fn canvas_file_magic() -> (m: [u8; 3])
    ensures
        m@ == spec_header().take(3),
{
    let m: [u8; 3] = [85u8, 87u8, 85u8];
    assert(m@ =~= spec_header().take(3));
    m
}

/// The header of a canvas file: the magic followed by the format version.
pub fn make_canvas_file_header() -> (h: [u8; 4])
    ensures
        h@ == spec_header(),
{
    let m = canvas_file_magic();
    let h: [u8; 4] = [m[0], m[1], m[2], CANVAS_FILE_VERSION];
    assert(h@ =~= spec_header());
    h
}

/// A canvas file holding `payload`: the header, then the payload.
pub fn encode_canvas_file(payload: &[u8]) -> (out: Vec<u8>)
    ensures
        out@ == spec_header() + payload@,
{
    let header = make_canvas_file_header();
    let mut out: Vec<u8> = Vec::with_capacity(4);
    out.push(header[0]);
    out.push(header[1]);
    out.push(header[2]);
    out.push(header[3]);
    let n = payload.len();
    let mut i: usize = 0;
    while i < n
        invariant
            n == payload@.len(),
            0 <= i <= n,
            out@ == spec_header() + payload@.take(i as int),
        decreases n - i,
    {
        out.push(payload[i]);
        i = i + 1;
        assert(payload@.take(i as int) == payload@.take(i - 1).push(payload@[i - 1]));
    }
    assert(payload@.take(n as int) == payload@);
    out
}

/// Why a file is not a canvas file of this version.
#[derive(Clone, Copy, PartialEq, Eq, Debug)]
pub enum CanvasHeaderError {
    /// The file has fewer than four bytes.
    TooShort { len: usize },
    /// The first four bytes are not the expected header.
    Mismatch { magic: [u8; 3], version: u8 },
}

/// The payload of a canvas file, or why the file is rejected.
pub open spec fn spec_payload(bytes: Seq<u8>) -> Result<Seq<u8>, CanvasHeaderError> {
    if bytes.len() < 4 {
        Err(CanvasHeaderError::TooShort { len: bytes.len() as usize })
    } else if bytes.take(4) != spec_header() {
        Err(CanvasHeaderError::Mismatch { magic: [bytes[0], bytes[1], bytes[2]], version: bytes[3] })
    } else {
        Ok(bytes.skip(4))
    }
}

/// Checks the header of a canvas file and returns what follows it.
pub fn canvas_file_payload(bytes: &[u8]) -> (r: Result<&[u8], CanvasHeaderError>)
    ensures
        match spec_payload(bytes@) {
            Ok(p) => r is Ok && r->Ok_0@ == p,
            Err(e) => r == Err::<&[u8], CanvasHeaderError>(e),
        },
{
    let magic = canvas_file_magic();
    if bytes.len() < 4 {
        return Err(CanvasHeaderError::TooShort { len: bytes.len() });
    }
    if bytes[0] != magic[0] || bytes[1] != magic[1] || bytes[2] != magic[2] || bytes[3]
        != CANVAS_FILE_VERSION {
        proof {
            let h = spec_header();
            if bytes@.take(4) == h {
                assert(bytes@[0] == bytes@.take(4)[0]);
                assert(bytes@[1] == bytes@.take(4)[1]);
                assert(bytes@[2] == bytes@.take(4)[2]);
                assert(bytes@[3] == bytes@.take(4)[3]);
            }
        }
        return Err(
            CanvasHeaderError::Mismatch { magic: [bytes[0], bytes[1], bytes[2]], version: bytes[3] },
        );
    }
    assert(bytes@.take(4) =~= spec_header());
    let (_, payload) = bytes.split_at(4);
    Ok(payload)
}

/// Reading back a file written by `encode_canvas_file` gives the payload.
pub proof fn law_canvas_file_round_trip(payload: Seq<u8>)
    ensures
        spec_payload(spec_header() + payload) == Ok::<Seq<u8>, CanvasHeaderError>(payload),
{
    let f = spec_header() + payload;
    assert(f.take(4) =~= spec_header());
    assert(f.skip(4) =~= payload);
}

/// `bytes` in the form `[55, 57, 55]`: two lowercase hexadecimal digits each.
pub open spec fn hex_list(bytes: Seq<u8>) -> Seq<char> {
    "["@ + hex2(bytes[0]) + ", "@ + hex2(bytes[1]) + ", "@ + hex2(bytes[2]) + "]"@
}

/// The description of a header error.
pub open spec fn header_message(e: CanvasHeaderError) -> Seq<char> {
    "unsupported canvas file format: expected magic=UWU, version="@ + decimal(
        CANVAS_FILE_VERSION as nat,
    ) + ", got "@ + match e {
        CanvasHeaderError::TooShort { len } => "too short ("@ + decimal(len as nat) + " bytes)"@,
        CanvasHeaderError::Mismatch { magic, version } => "magic="@ + hex_list(magic@) + ", version="@
            + decimal(version as nat),
    }
}

impl CanvasHeaderError {
    /// The description of the error.
    pub fn message(&self) -> (s: String)
        ensures
            s@ == header_message(*self),
    {
        let mut out: Vec<char> = Vec::new();
        append_str(&mut out, "unsupported canvas file format: expected magic=UWU, version=");
        append_decimal(&mut out, CANVAS_FILE_VERSION as usize);
        append_str(&mut out, ", got ");
        let ghost prefix = out@;
        match self {
            CanvasHeaderError::TooShort { len } => {
                append_str(&mut out, "too short (");
                append_decimal(&mut out, *len);
                append_str(&mut out, " bytes)");
            },
            CanvasHeaderError::Mismatch { magic, version } => {
                append_str(&mut out, "magic=");
                append_str(&mut out, "[");
                append_hex2(&mut out, magic[0]);
                append_str(&mut out, ", ");
                append_hex2(&mut out, magic[1]);
                append_str(&mut out, ", ");
                append_hex2(&mut out, magic[2]);
                append_str(&mut out, "]");
                append_str(&mut out, ", version=");
                append_decimal(&mut out, *version as usize);
            },
        }
        assert(out@ =~= header_message(*self));
        string_from_chars(out.as_slice())
    }
}

/// The name of the file that a save writes first, beside the target, and
/// then renames onto it: the target's name (`canvas.owo` when it has none
/// that is valid text) followed by `.tmp`.
pub open spec fn temp_name(file_name: Option<Seq<char>>) -> Seq<char> {
    match file_name {
        Some(n) => n + ".tmp"@,
        None => "canvas.owo"@ + ".tmp"@,
    }
}

/// The name of the temporary file for a save onto a file named `file_name`.
pub fn temp_file_name(file_name: Option<&str>) -> (s: String)
    ensures
        s@ == temp_name(match file_name {
            Some(n) => Some(n@),
            None => None,
        }),
{
    let mut out: Vec<char> = Vec::new();
    match file_name {
        Some(n) => append_str(&mut out, n),
        None => append_str(&mut out, "canvas.owo"),
    }
    append_str(&mut out, ".tmp");
    string_from_chars(out.as_slice())
}

/// Why a canvas file could not be loaded.
pub enum CanvasLoadError {
    /// The header is not that of this format version.
    Header(CanvasHeaderError),
    /// The payload could not be decoded; the decoder's description.
    Decode(String),
    /// The decoded page breaks an invariant.
    Invalid(PageError),
}

/// The description of a load error.
pub open spec fn load_message(e: CanvasLoadError) -> Seq<char> {
    match e {
        CanvasLoadError::Header(h) => header_message(h),
        CanvasLoadError::Decode(d) => "bitcode error: "@ + d@,
        CanvasLoadError::Invalid(p) => "invalid canvas file: "@ + page_message(p),
    }
}

impl CanvasLoadError {
    /// The description of the error.
    pub fn message(&self) -> (s: String)
        ensures
            s@ == load_message(*self),
    {
        match self {
            CanvasLoadError::Header(h) => h.message(),
            CanvasLoadError::Decode(d) => {
                let mut out: Vec<char> = Vec::new();
                append_str(&mut out, "bitcode error: ");
                append_str(&mut out, d.as_str());
                string_from_chars(out.as_slice())
            },
            CanvasLoadError::Invalid(p) => {
                let mut out: Vec<char> = Vec::new();
                append_str(&mut out, "invalid canvas file: ");
                let m = p.message();
                append_str(&mut out, m.as_str());
                string_from_chars(out.as_slice())
            },
        }
    }
}

} // verus!
