//! Asset paths and the errors of loading and saving assets.
//!
//! Files are read and written elsewhere; this module says where an asset
//! lies, keeps what went wrong, and puts it into words.

use vstd::prelude::*;
use vstd::string::{StrSliceExecFns, StringExecFns};

verus! {

/// What the operating system said when a file could not be read or written.
#[derive(Clone, PartialEq, Eq, Debug)]
pub struct IoFailure {
    /// Whether the file, or a directory on the way to it, does not exist.
    pub not_found: bool,
    /// The error number of the operating system, if there is one.
    pub os_code: Option<i32>,
    /// The failure in the words of the operating system.
    pub text: String,
}

/// Why an image could not be decoded.
#[derive(Clone, PartialEq, Eq, Debug)]
pub enum ImageFailure {
    /// The data could not be read.
    Io(IoFailure),
    /// The data is no image of the expected format.
    Format(String),
    /// Anything else.
    Other(String),
}

#[derive(Clone, PartialEq, Eq, Debug)]
pub enum ErrorKind {
    IoError(IoFailure),
    Format,
    Other,
}

/// An asset could not be loaded or saved.
#[derive(Clone, PartialEq, Eq, Debug)]
pub struct AssetError {
    pub path: String,
    /// Whether the asset was being written; else it was being read.
    pub write: bool,
    pub kind: ErrorKind,
    pub info: String,
}

pub type Result<T> = std::result::Result<T, AssetError>;

/// The path separator.
pub const SEPARATOR: char = '/';

/// A path with one more part: the part alone if it starts at the root, else
/// the path and the part with one separator between them.
pub open spec fn joined(base: Seq<char>, part: Seq<char>) -> Seq<char> {
    if part.len() > 0 && part[0] == SEPARATOR {
        part
    } else if base.len() == 0 || base.last() == SEPARATOR {
        base + part
    } else {
        base + seq![SEPARATOR] + part
    }
}

/// The decimal digits of a number, the most significant first.
pub open spec fn digits(n: nat) -> Seq<char>
    decreases n,
{
    if n < 10 {
        seq![digit(n)]
    } else {
        digits(n / 10).push(digit(n % 10))
    }
}

/// The character of a digit.
pub open spec fn digit(d: nat) -> char {
    if d == 0 {
        '0'
    } else if d == 1 {
        '1'
    } else if d == 2 {
        '2'
    } else if d == 3 {
        '3'
    } else if d == 4 {
        '4'
    } else if d == 5 {
        '5'
    } else if d == 6 {
        '6'
    } else if d == 7 {
        '7'
    } else if d == 8 {
        '8'
    } else {
        '9'
    }
}

/// A whole number in decimal, with a minus sign if it is below zero.
pub open spec fn decimal(n: int) -> Seq<char> {
    if n < 0 {
        seq!['-'] + digits((-n) as nat)
    } else {
        digits(n as nat)
    }
}

fn digit_str(d: u64) -> (s: &'static str)
    requires
        d < 10,
    ensures
        s@ == seq![digit(d as nat)],
{
    proof {
        reveal_strlit("0");
        reveal_strlit("1");
        reveal_strlit("2");
        reveal_strlit("3");
        reveal_strlit("4");
        reveal_strlit("5");
        reveal_strlit("6");
        reveal_strlit("7");
        reveal_strlit("8");
        reveal_strlit("9");
    }
    if d == 0 {
        "0"
    } else if d == 1 {
        "1"
    } else if d == 2 {
        "2"
    } else if d == 3 {
        "3"
    } else if d == 4 {
        "4"
    } else if d == 5 {
        "5"
    } else if d == 6 {
        "6"
    } else if d == 7 {
        "7"
    } else if d == 8 {
        "8"
    } else {
        "9"
    }
}

fn digits_of(n: u64) -> (text: String)
    ensures
        text@ == digits(n as nat),
    decreases n,
{
    if n < 10 {
        String::from_str(digit_str(n))
    } else {
        let text = digits_of(n / 10);
        text.concat(digit_str(n % 10))
    }
}

/// Writes a number in decimal.
pub fn decimal_text(n: i32) -> (text: String)
    ensures
        text@ == decimal(n as int),
{
    if n < 0 {
        proof {
            reveal_strlit("-");
        }
        let rest = digits_of((-(n as i64)) as u64);
        String::from_str("-").concat(rest.as_str())
    } else {
        digits_of(n as u64)
    }
}

/// Adds a part to a path.
pub fn join_path(base: &str, part: &str) -> (path: String)
    ensures
        path@ == joined(base@, part@),
{
    proof {
        reveal_strlit("/");
    }
    let base_len = base.unicode_len();
    if part.unicode_len() > 0 && part.get_char(0) == SEPARATOR {
        String::from_str(part)
    } else if base_len == 0 || base.get_char(base_len - 1) == SEPARATOR {
        String::from_str(base).concat(part)
    } else {
        String::from_str(base).concat("/").concat(part)
    }
}

/// The directory that asset paths start from: the working directory.
pub fn base_path() -> (path: String)
    ensures
        path@ == Seq::<char>::empty(),
{
    String::new()
}

/// The path of an asset: the base path, then the prefix, then the asset's
/// own path.
pub fn get_path(prefix: &str, asset_path: &str) -> (path: String)
    ensures
        path@ == joined(joined(Seq::empty(), prefix@), asset_path@),
{
    let base = base_path();
    let directory = join_path(base.as_str(), prefix);
    join_path(directory.as_str(), asset_path)
}

impl AssetError {
    /// A file could not be read or written.
    pub fn new_io(path: String, write: bool, error: IoFailure) -> (e: AssetError)
        ensures
            e.path == path,
            e.write == write,
            e.kind == ErrorKind::IoError(error),
            e.info@ == Seq::<char>::empty(),
    {
        AssetError { path, write, kind: ErrorKind::IoError(error), info: String::new() }
    }

    /// A file does not hold what its format asks for; `message` says why.
    pub fn new_yaml(path: String, write: bool, message: String) -> (e: AssetError)
        ensures
            e.path == path,
            e.write == write,
            e.kind == ErrorKind::Format,
            e.info == message,
    {
        AssetError { path, write, kind: ErrorKind::Format, info: message }
    }

    /// An image could not be decoded.
    pub fn new_png(path: String, error: ImageFailure) -> (e: AssetError)
        ensures
            e.path == path,
            !e.write,
            match error {
                ImageFailure::Io(failure) => e.kind == ErrorKind::IoError(failure) && e.info@
                    == Seq::<char>::empty(),
                ImageFailure::Format(message) => e.kind == ErrorKind::Format && e.info == message,
                ImageFailure::Other(message) => e.kind == ErrorKind::Other && e.info == message,
            },
    {
        match error {
            ImageFailure::Io(failure) => AssetError {
                path,
                write: false,
                kind: ErrorKind::IoError(failure),
                info: String::new(),
            },
            ImageFailure::Format(message) => AssetError {
                path,
                write: false,
                kind: ErrorKind::Format,
                info: message,
            },
            ImageFailure::Other(message) => AssetError {
                path,
                write: false,
                kind: ErrorKind::Other,
                info: message,
            },
        }
    }

    /// A file does not hold a font.
    pub fn invalid_font(path: String) -> (e: AssetError)
        ensures
            e.path == path,
            !e.write,
            e.kind == ErrorKind::Format,
            e.info@ == "Invalid font"@,
    {
        AssetError {
            path,
            write: false,
            kind: ErrorKind::Format,
            info: String::from_str("Invalid font"),
        }
    }

    /// Whether the asset, or a directory on the way to it, does not exist.
    pub open spec fn spec_not_found(&self) -> bool {
        self.kind matches ErrorKind::IoError(failure) && failure.not_found
    }

    #[verifier::when_used_as_spec(spec_not_found)]
    pub fn not_found(&self) -> (missing: bool)
        ensures
            missing == self.spec_not_found(),
    {
        match &self.kind {
            ErrorKind::IoError(failure) => failure.not_found,
            _ => false,
        }
    }

    /// The part of the message that says what went wrong.
    pub open spec fn reason(&self) -> Seq<char> {
        match self.kind {
            ErrorKind::IoError(failure) => if self.write && failure.not_found {
                "The parent directory does not exist."@ + match failure.os_code {
                    Some(code) => " (os error "@ + decimal(code as int) + ")"@,
                    None => Seq::empty(),
                }
            } else {
                failure.text@
            },
            _ => self.info@,
        }
    }

    /// The error in words.
    pub open spec fn spec_message(&self) -> Seq<char> {
        "Error "@ + (if self.write {
            "writing"@
        } else {
            "reading"@
        }) + " "@ + self.path@ + ": "@ + self.reason()
    }

    /// The error in words: what was being done to which file, and what went
    /// wrong. A missing file while writing means that its directory is
    /// missing.
    pub fn message(&self) -> (text: String)
        ensures
            text@ == self.spec_message(),
    {
        let read_write = if self.write {
            "writing"
        } else {
            "reading"
        };
        let head = String::from_str("Error ").concat(read_write).concat(" ").concat(
            self.path.as_str(),
        ).concat(": ");
        match &self.kind {
            ErrorKind::IoError(failure) => {
                if self.write && failure.not_found {
                    let text = head.concat("The parent directory does not exist.");
                    match failure.os_code {
                        Some(code) => {
                            let number = decimal_text(code);
                            let text = text.concat(" (os error ").concat(number.as_str()).concat(
                                ")",
                            );
                            proof {
                                assert(text@ =~= self.spec_message());
                            }
                            text
                        },
                        None => {
                            proof {
                                assert(text@ =~= self.spec_message());
                            }
                            text
                        },
                    }
                } else {
                    head.concat(failure.text.as_str())
                }
            },
            _ => head.concat(self.info.as_str()),
        }
    }
}

/// Pixels ready to become a texture: four bytes for each pixel, row by row.
#[derive(Clone, PartialEq, Eq, Debug)]
pub struct TextureData {
    pub width: u16,
    pub height: u16,
    pub bytes: Vec<u8>,
}

/// Cuts a decoded frame down to the bytes that it filled. A frame wider or
/// higher than a texture can be gives `None`.
pub fn texture_data(width: u32, height: u32, size: usize, buffer: Vec<u8>) -> (data: Option<
    TextureData,
>)
    ensures
        width > u16::MAX || height > u16::MAX ==> data is None,
        width <= u16::MAX && height <= u16::MAX ==> {
            &&& data matches Some(texture)
            &&& texture.width == width
            &&& texture.height == height
            &&& texture.bytes@ == if size < buffer@.len() {
                buffer@.subrange(0, size as int)
            } else {
                buffer@
            }
        },
{
    if width > 0xFFFF || height > 0xFFFF {
        return None;
    }
    let mut bytes = buffer;
    if size < bytes.len() {
        bytes.truncate(size);
    }
    Some(TextureData { width: width as u16, height: height as u16, bytes })
}

} // verus!
