//! Avatars: their PNG encoding and the stages of fetching one.

use crate::error::BrokerError;
use vstd::prelude::*;

verus! {

/// The width and the height of a small avatar.
pub const AVATAR_SIZE: u32 = 32;

/// How long an avatar may stay away before it is given up, in nanoseconds (0.1 s).
pub const AVATAR_PENDING_TIMEOUT: u128 = 100_000_000;

/// The step at which a PNG encoding failed.
#[derive(Clone, Copy, Debug, PartialEq, Eq, Structural)]
pub enum PngFailure {
    Header,
    Data,
}

/// The PNG file that the `png` crate makes of 8-bit RGBA pixels at its high compression
/// setting, or the step at which it fails.
pub uninterp spec fn png_of_rgba(rgba: Seq<u8>, width: u32, height: u32) -> Result<
    Seq<u8>,
    PngFailure,
>;

/// Runs `png::Encoder` (`new`, `set_color`, `set_depth`, `set_compression`, `write_header`)
/// and `png::Writer::write_image_data` over a byte vector.
///
/// The outcome depends on the pixels and the two sides alone. Writing the header fails
/// exactly for an image that has no width or no height. What a PNG file looks like inside is
/// not stated, nor that writing the pixels succeeds.
#[verifier::external_body]
fn png_encode(rgba: &[u8], width: u32, height: u32) -> (r: Result<Vec<u8>, PngFailure>)
    requires
        rgba@.len() == width * height * 4,
        width * height * 4 <= u32::MAX,
    ensures
        r matches Ok(file) ==> (png_of_rgba(rgba@, width, height) matches Ok(f) && f == file@),
        r matches Err(e) ==> (png_of_rgba(rgba@, width, height) matches Err(f) && f == e),
        (r matches Err(e) && e == PngFailure::Header) <==> width == 0 || height == 0,
{
    let mut out = Vec::new();
    {
        let mut encoder = png::Encoder::new(std::io::Cursor::new(&mut out), width, height);
        encoder.set_color(png::ColorType::Rgba);
        encoder.set_depth(png::BitDepth::Eight);
        encoder.set_compression(png::Compression::High);
        let mut writer = encoder.write_header().map_err(|_| PngFailure::Header)?;
        writer.write_image_data(rgba).map_err(|_| PngFailure::Data)?;
    }
    Ok(out)
}

/// How the outcome of a PNG encoding is reported.
pub open spec fn reported(encoded: Result<Seq<u8>, PngFailure>) -> Result<Seq<u8>, BrokerError> {
    match encoded {
        Ok(file) => Ok(file),
        Err(PngFailure::Header) => Err(BrokerError::Custom("png header write failed")),
        Err(PngFailure::Data) => Err(BrokerError::Custom("png data write failed")),
    }
}

/// Reports the outcome of a PNG encoding.
pub fn report_encoding(encoded: Result<Vec<u8>, PngFailure>) -> (r: Result<Vec<u8>, BrokerError>)
    ensures
        match encoded {
            Ok(file) => r matches Ok(f) && f@ == file@,
            Err(e) => r matches Err(b) && reported(Err(e)) == Err::<Seq<u8>, _>(b),
        },
{
    match encoded {
        Ok(file) => Ok(file),
        Err(PngFailure::Header) => Err(BrokerError::Custom("png header write failed")),
        Err(PngFailure::Data) => Err(BrokerError::Custom("png data write failed")),
    }
}

/// What encoding a picture of the given size gives.
pub open spec fn encoded_avatar(rgba: Seq<u8>, width: u32, height: u32) -> Result<
    Seq<u8>,
    BrokerError,
> {
    if rgba.len() != width * height * 4 {
        Err(BrokerError::Custom("unexpected avatar buffer size"))
    } else {
        reported(png_of_rgba(rgba, width, height))
    }
}

/// Encodes 8-bit RGBA pixels as a PNG file.
pub fn encode_avatar_png(rgba: &[u8], width: u32, height: u32) -> (r: Result<Vec<u8>, BrokerError>)
    requires
        width * height * 4 <= u32::MAX,
    ensures
        match r {
            Ok(file) => encoded_avatar(rgba@, width, height) == Ok::<Seq<u8>, BrokerError>(file@),
            Err(e) => encoded_avatar(rgba@, width, height) == Err::<Seq<u8>, BrokerError>(e),
        },
        rgba@.len() != width * height * 4 ==> r == Err::<Vec<u8>, _>(
            BrokerError::Custom("unexpected avatar buffer size"),
        ),
        rgba@.len() == width * height * 4 ==> (r is Ok <==> png_of_rgba(rgba@, width, height)
            is Ok),
        r matches Ok(file) ==> png_of_rgba(rgba@, width, height) == Ok::<_, PngFailure>(file@),
        rgba@.len() == width * height * 4 && (width == 0 || height == 0) ==> r == Err::<
            Vec<u8>,
            _,
        >(BrokerError::Custom("png header write failed")),
{
    let expected_len: u64 = width as u64 * height as u64 * 4;
    if rgba.len() as u64 != expected_len {
        return Err(BrokerError::Custom("unexpected avatar buffer size"));
    }
    report_encoding(png_encode(rgba, width, height))
}

/// What a look at an avatar fetch finds.
pub enum AvatarFetchState {
    Ready(Vec<u8>),
    Pending,
    Unavailable,
}

/// A single player's avatar fetch, in exactly one state at a time. `NotRequested` is the
/// initial state for a freshly-captured player, before anything has asked for their avatar
/// yet.
pub enum AvatarState {
    NotRequested,
    /// Asked for at this time, in nanoseconds.
    Pending(u128),
    /// Arrived, as a PNG file.
    Ready(Vec<u8>),
    Unavailable,
}

/// An avatar fetch.
#[verifier::ext_equal]
pub enum AvatarView {
    NotRequested,
    Pending(u128),
    Ready(Seq<u8>),
    Unavailable,
}

impl View for AvatarState {
    type V = AvatarView;

    open spec fn view(&self) -> AvatarView {
        match self {
            AvatarState::NotRequested => AvatarView::NotRequested,
            AvatarState::Pending(started) => AvatarView::Pending(*started),
            AvatarState::Ready(file) => AvatarView::Ready(file@),
            AvatarState::Unavailable => AvatarView::Unavailable,
        }
    }
}

/// What a look at an avatar fetch finds.
#[verifier::ext_equal]
pub enum FetchView {
    Ready(Seq<u8>),
    Pending,
    Unavailable,
}

impl View for AvatarFetchState {
    type V = FetchView;

    open spec fn view(&self) -> FetchView {
        match self {
            AvatarFetchState::Ready(file) => FetchView::Ready(file@),
            AvatarFetchState::Pending => FetchView::Pending,
            AvatarFetchState::Unavailable => FetchView::Unavailable,
        }
    }
}

/// Whether a fetch that began at `started` is overdue at `now`.
pub open spec fn overdue(started: u128, now: u128) -> bool {
    now - started > AVATAR_PENDING_TIMEOUT
}

/// What a look at `avatar` at the time `now` finds.
pub open spec fn seen(avatar: AvatarView, now: u128) -> FetchView {
    match avatar {
        AvatarView::Ready(file) => FetchView::Ready(file),
        AvatarView::Unavailable => FetchView::Unavailable,
        AvatarView::Pending(started) => if overdue(started, now) {
            FetchView::Unavailable
        } else {
            FetchView::Pending
        },
        AvatarView::NotRequested => FetchView::Pending,
    }
}

/// Where a look at `avatar` at the time `now` leaves it: a fetch not yet begun begins, and
/// one that is overdue is given up.
pub open spec fn looked_at(avatar: AvatarView, now: u128) -> AvatarView {
    match avatar {
        AvatarView::NotRequested => AvatarView::Pending(now),
        AvatarView::Pending(started) => if overdue(started, now) {
            AvatarView::Unavailable
        } else {
            avatar
        },
        _ => avatar,
    }
}

/// A fetch that has come to an end stays as it ended.
pub proof fn ended_fetch_stays(avatar: AvatarView, now: u128)
    requires
        avatar is Ready || avatar is Unavailable,
    ensures
        looked_at(avatar, now) == avatar,
        !(seen(avatar, now) is Pending),
{
}

/// A fetch once begun comes to an end: a look later than the timeout never finds it pending.
pub proof fn fetch_ends_in_time(avatar: AvatarView, begun: u128, now: u128)
    requires
        avatar is NotRequested,
        now > begun + AVATAR_PENDING_TIMEOUT,
    ensures
        seen(looked_at(avatar, begun), now) is Unavailable,
        looked_at(looked_at(avatar, begun), now) is Unavailable,
{
}

} // verus!
