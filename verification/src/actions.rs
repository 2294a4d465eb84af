//! What a finished selection turns into: the captured pixels, the ways of
//! delivering them, and the PNG bytes and file name that delivery uses.

use std::time::{Duration, SystemTime, SystemTimeError};
use vstd::prelude::*;

verus! {

#[derive(Clone, Copy, PartialEq, Eq, Debug, Structural)]
pub enum Deliverable {
    Upload,
    Copy,
    Save,
    Close,
}

/// The name shown for a delivery.
pub open spec fn deliverable_label(d: Deliverable) -> Seq<char> {
    match d {
        Deliverable::Upload => "Upload"@,
        Deliverable::Copy => "Copy"@,
        Deliverable::Save => "Save"@,
        Deliverable::Close => "Close"@,
    }
}

impl Deliverable {
    pub fn label(self) -> (s: &'static str)
        ensures
            s@ == deliverable_label(self),
    {
        match self {
            Deliverable::Upload => "Upload",
            Deliverable::Copy => "Copy",
            Deliverable::Save => "Save",
            Deliverable::Close => "Close",
        }
    }
}

/// A flattened selection: straight RGBA rows, `width * height` pixels.
pub struct Shot {
    pub width: u32,
    pub height: u32,
    pub rgba: Vec<u8>,
}

impl Shot {
    pub fn empty() -> (s: Self)
        ensures
            s.width == 0,
            s.height == 0,
            s.rgba@ == Seq::<u8>::empty(),
    {
        Shot { width: 0, height: 0, rgba: Vec::new() }
    }
}

/// The character of a decimal digit.
pub open spec fn digit_char(d: nat) -> char {
    ((48 + d) as u8) as char
}

/// The decimal digits of `n`, most significant first, without leading zeros.
pub open spec fn decimal(n: nat) -> Seq<char>
    decreases n,
{
    if n < 10 {
        seq![digit_char(n)]
    } else {
        decimal(n / 10) + seq![digit_char(n % 10)]
    }
}

fn digit_str(d: u64) -> (s: &'static str)
    requires
        d < 10,
    ensures
        s@ == seq![digit_char(d as nat)],
{
    proof {
        reveal_strlit("0");
        reveal_strlit("1");
        reveal_strlit("2");
        reveal_strlit("3");
        reveal_strlit("4");
        reveal_strlit("5");
        reveal_strlit("6");
        reveal_strlit("7");
        reveal_strlit("8");
        reveal_strlit("9");
    }
    match d {
        0 => "0",
        1 => "1",
        2 => "2",
        3 => "3",
        4 => "4",
        5 => "5",
        6 => "6",
        7 => "7",
        8 => "8",
        _ => "9",
    }
}

/// Appends the decimal digits of `n`.
fn push_decimal(out: &mut String, n: u64)
    ensures
        final(out)@ == old(out)@ + decimal(n as nat),
    decreases n,
{
    if n >= 10 {
        push_decimal(out, n / 10);
    }
    out.append(digit_str(n % 10));
    proof {
        if n < 10 {
            assert(n % 10 == n);
        }
    }
}

/// The file name for a capture taken `seconds` after the Unix epoch.
pub open spec fn stamp_name(seconds: nat) -> Seq<char> {
    "slightshot_"@ + decimal(seconds) + ".png"@
}

/// Builds the file name for a capture taken `seconds` after the Unix epoch.
pub fn stamp_for(seconds: u64) -> (name: String)
    ensures
        name@ == stamp_name(seconds as nat),
{
    let mut name = String::from_str("slightshot_");
    push_decimal(&mut name, seconds);
    name.append(".png");
    name
}

#[verifier::external_type_specification]
#[verifier::external_body]
pub struct ExSystemTime(SystemTime);

#[verifier::external_type_specification]
#[verifier::external_body]
pub struct ExSystemTimeError(SystemTimeError);

/// `SystemTime::now`: the wall clock, which nothing here can predict.
#[verifier::external_body]
fn clock_now() -> SystemTime {
    SystemTime::now()
}

/// `SystemTime::duration_since` measured from the Unix epoch; it fails when
/// the clock reads earlier than the epoch. Nothing is stated of the duration.
#[verifier::external_body]
fn since_unix_epoch(t: &SystemTime) -> Result<Duration, SystemTimeError> {
    t.duration_since(SystemTime::UNIX_EPOCH)
}

/// `Duration::as_secs`: the whole seconds of a duration, which is opaque here.
#[verifier::external_body]
fn whole_seconds(d: &Duration) -> u64 {
    d.as_secs()
}

/// The file name for a capture, given the whole seconds after the Unix
/// epoch at which it was taken, or `None` when the clock read earlier than
/// the epoch, which names second zero.
pub fn stamp_since_epoch(elapsed_seconds: Option<u64>) -> (name: String)
    ensures
        name@ == stamp_name(
            match elapsed_seconds {
                Some(s) => s as nat,
                None => 0,
            },
        ),
{
    let seconds = match elapsed_seconds {
        Some(s) => s,
        None => 0,
    };
    stamp_for(seconds)
}

/// A file name for a capture taken now.
pub fn stamp() -> (name: String)
    ensures
        exists|seconds: u64| name@ == stamp_name(seconds as nat),
{
    let now = clock_now();
    let elapsed_seconds = match since_unix_epoch(&now) {
        Ok(duration) => Some(whole_seconds(&duration)),
        Err(_) => None,
    };
    stamp_since_epoch(elapsed_seconds)
}

#[verifier::external_type_specification]
#[verifier::external_body]
pub struct ExEncodingError(png::EncodingError);

/// The PNG file that the `png` encoder writes for 8-bit RGBA rows of the
/// given size.
pub uninterp spec fn png_encoding(width: u32, height: u32, rgba: Seq<u8>) -> Seq<u8>;

/// Encodes 8-bit RGBA rows with `png::Encoder` (header, image data, end
/// chunk) into memory. The encoder rejects only a zero width or height, or
/// a buffer whose length is not `width * height * 4`, and writing to a
/// vector cannot fail, so with those excluded it succeeds; the bytes are
/// named, not stated.
#[verifier::external_body]
fn encode_rgba_png(width: u32, height: u32, rgba: &[u8]) -> (r: Result<Vec<u8>, png::EncodingError>)
    requires
        width > 0,
        height > 0,
        rgba@.len() == width * height * 4,
    ensures
        match r {
            Ok(bytes) => bytes@ == png_encoding(width, height, rgba@),
            Err(_) => false,
        },
{
    let mut out = Vec::new();
    {
        let mut encoder = png::Encoder::new(&mut out, width, height);
        encoder.set_color(png::ColorType::Rgba);
        encoder.set_depth(png::BitDepth::Eight);
        let mut writer = encoder.write_header()?;
        writer.write_image_data(rgba)?;
        writer.finish()?;
    }
    Ok(out)
}

/// Why a shot could not be encoded.
#[derive(Clone, Copy, PartialEq, Eq, Debug, Structural)]
pub enum PngError {
    /// The shot has no rows or no columns.
    EmptyImage,
    /// The pixel buffer does not hold `width * height` RGBA pixels.
    WrongLength,
}

/// The PNG file for a shot.
pub fn png_bytes(shot: &Shot) -> (r: Result<Vec<u8>, PngError>)
    ensures
        (shot.width == 0 || shot.height == 0) <==> r == Err::<Vec<u8>, PngError>(PngError::EmptyImage),
        r == Err::<Vec<u8>, PngError>(PngError::WrongLength) <==> (shot.width > 0 && shot.height > 0
            && shot.rgba@.len() != shot.width * shot.height * 4),
        r is Ok <==> (shot.width > 0 && shot.height > 0 && shot.rgba@.len() == shot.width * shot.height
            * 4),
        r matches Ok(bytes) ==> bytes@ == png_encoding(shot.width, shot.height, shot.rgba@),
{
    if shot.width == 0 || shot.height == 0 {
        return Err(PngError::EmptyImage);
    }
    assert((shot.width as int) * (shot.height as int) * 4 <= 0x4_0000_0000_0000_0000) by (nonlinear_arith)
        requires
            shot.width <= 0xFFFF_FFFF,
            shot.height <= 0xFFFF_FFFF,
    ;
    let expected: u128 = (shot.width as u128) * (shot.height as u128) * 4;
    if (shot.rgba.len() as u128) != expected {
        return Err(PngError::WrongLength);
    }
    match encode_rgba_png(shot.width, shot.height, shot.rgba.as_slice()) {
        Ok(bytes) => Ok(bytes),
        Err(_) => Err(PngError::WrongLength),
    }
}

} // verus!
