use vstd::prelude::*;

use crate::handlers::book::text_reply;
use crate::reply::{concat3, HttpStatus, Reply, ReplyBody};

verus! {

/// Where the shell's picture lies: `./static/asset_images/{aas_id_short}.png`.
pub fn thumbnail_path(aas_id_short: &str) -> (r: String)
    ensures
        r@ == "./static/asset_images/"@ + aas_id_short@ + ".png"@,
{
    concat3("./static/asset_images/", aas_id_short, ".png")
}

/// What reading the picture gave.
#[derive(Debug, PartialEq)]
pub enum ImageRead {
    /// The file could not be opened.
    OpenFailed,
    /// The file opened but could not be read.
    ReadFailed,
    /// The file's bytes.
    Read(Vec<u8>),
}

/// The answer to a thumbnail request: 404 "Image not found" when the file
/// cannot be opened, an empty 500 when it cannot be read, else the PNG.
pub fn thumbnail_reply(read: ImageRead) -> (r: Reply)
    ensures
        match read {
            ImageRead::OpenFailed => r.status == HttpStatus::NotFound && (r.body matches ReplyBody::Text(t)
                && t@ == "Image not found"@),
            ImageRead::ReadFailed => r.status == HttpStatus::InternalServerError && r.body is Empty,
            ImageRead::Read(bytes) => r.status == HttpStatus::Success && (r.body matches ReplyBody::Png(b)
                && b@ == bytes@),
        },
{
    match read {
        ImageRead::OpenFailed => text_reply(HttpStatus::NotFound, "Image not found"),
        ImageRead::ReadFailed => Reply { status: HttpStatus::InternalServerError, body: ReplyBody::Empty },
        ImageRead::Read(bytes) => Reply { status: HttpStatus::Success, body: ReplyBody::Png(bytes) },
    }
}

} // verus!
