//! Image index rows as the queries return them.
use vstd::prelude::*;
use crate::text::{push_signed, push_str, signed_decimal};

verus! {

/// A row of the image index (without EXIF data, which is read from the file on demand).
#[derive(Debug, Clone)]
pub struct ImageRow {
    pub id: i64,
    pub path: String,
    pub width: Option<i64>,
    pub height: Option<i64>,
    pub format: Option<String>,
    pub file_size: Option<i64>,
    pub mtime: Option<i64>,
}

/// Text of the error for an image id that has no row.
pub open spec fn not_found_message(id: int) -> Seq<char> {
    "图片不存在：id="@ + signed_decimal(id)
}

/// The row of an image detail request, or the not-found error `图片不存在：id=<id>`.
pub fn detail_row(row: Option<ImageRow>, id: i64) -> (r: Result<ImageRow, String>)
    ensures
        match row {
            Some(x) => r == Ok::<ImageRow, String>(x),
            None => r matches Err(m) && m@ == not_found_message(id as int),
        },
{
    match row {
        Some(x) => Ok(x),
        None => {
            let mut m = String::new();
            push_str(&mut m, "图片不存在：id=");
            push_signed(&mut m, id);
            assert(m@ =~= not_found_message(id as int));
            Err(m)
        },
    }
}

/// Number of listed images from the `COUNT(*)` of the query, as the list reports it
/// (`as u32`).
pub fn count_from_query(n: i64) -> (r: u32)
    ensures
        r == n as u32,
{
    n as u32
}

} // verus!
