use vstd::prelude::*;

verus! {

/// Metadata returned by KWin ScreenShot2 after a capture.
#[derive(Debug, Clone, Copy, PartialEq, Eq, Structural)]
pub struct CaptureMetadata {
    pub width: u32,
    pub height: u32,
    pub stride: u32,
    pub format: u32,
}

/// A metadata value as carried over D-Bus: the integer kinds KWin may send,
/// or any other kind, described by its debug text.
#[derive(Debug, Clone, PartialEq, Eq)]
pub enum MetadataValue {
    U32(u32),
    I64(i64),
    U64(u64),
    Other(String),
}

/// The metadata entries a capture needs.
#[derive(Debug, Clone, Copy, PartialEq, Eq, Structural)]
pub enum MetadataField {
    Width,
    Height,
    Stride,
    Format,
}

/// Why capture metadata could not be read.
#[derive(Debug, Clone, PartialEq, Eq)]
pub enum MetadataError {
    /// The entry is absent from the reply.
    Missing(MetadataField),
    /// The entry is not an integer; carries the value's description.
    UnexpectedType(String),
}

/// The integer a metadata value denotes, if it is an integer kind; wider
/// kinds are truncated to their low 32 bits.
pub open spec fn spec_u32_of(v: MetadataValue) -> Option<u32> {
    match v {
        MetadataValue::U32(x) => Some(x),
        MetadataValue::I64(x) => Some(x as u32),
        MetadataValue::U64(x) => Some(x as u32),
        MetadataValue::Other(_) => None,
    }
}

pub fn extract_u32(val: &MetadataValue) -> (r: Result<u32, MetadataError>)
    ensures
        spec_u32_of(*val) matches Some(x) ==> r == Ok::<u32, MetadataError>(x),
        spec_u32_of(*val) is None ==> r == Err::<u32, MetadataError>(
            MetadataError::UnexpectedType(val->Other_0),
        ),
{
    match val {
        MetadataValue::U32(v) => Ok(*v),
        MetadataValue::I64(v) => Ok(*v as u32),
        MetadataValue::U64(v) => Ok(*v as u32),
        MetadataValue::Other(desc) => Err(MetadataError::UnexpectedType(desc.clone())),
    }
}

/// Reads one required entry.
fn field_u32(v: &Option<MetadataValue>, field: MetadataField) -> (r: Result<u32, MetadataError>)
    ensures
        v is None ==> r == Err::<u32, MetadataError>(MetadataError::Missing(field)),
        v matches Some(val) ==> (spec_u32_of(*val) matches Some(x) ==> r == Ok::<u32, MetadataError>(x)),
        v matches Some(val) ==> (spec_u32_of(*val) is None ==> r == Err::<u32, MetadataError>(
            MetadataError::UnexpectedType(val->Other_0),
        )),
{
    match v {
        Some(val) => extract_u32(val),
        None => Err(MetadataError::Missing(field)),
    }
}

/// The first failing entry in the order width, height, stride, format.
pub open spec fn spec_entry_error(v: Option<MetadataValue>, field: MetadataField) -> Option<MetadataError> {
    match v {
        None => Some(MetadataError::Missing(field)),
        Some(val) => if spec_u32_of(val) is None {
            Some(MetadataError::UnexpectedType(val->Other_0))
        } else {
            None
        },
    }
}

/// Builds capture metadata from the reply's `width`, `height`, `stride` and
/// `format` entries (each `None` when absent).
pub fn parse_metadata(
    width: &Option<MetadataValue>,
    height: &Option<MetadataValue>,
    stride: &Option<MetadataValue>,
    format: &Option<MetadataValue>,
) -> (r: Result<CaptureMetadata, MetadataError>)
    ensures
        spec_entry_error(*width, MetadataField::Width) matches Some(e) ==> r == Err::<CaptureMetadata, MetadataError>(e),
        spec_entry_error(*width, MetadataField::Width) is None
            ==> (spec_entry_error(*height, MetadataField::Height) matches Some(e)
            ==> r == Err::<CaptureMetadata, MetadataError>(e)),
        spec_entry_error(*width, MetadataField::Width) is None
            && spec_entry_error(*height, MetadataField::Height) is None
            ==> (spec_entry_error(*stride, MetadataField::Stride) matches Some(e)
            ==> r == Err::<CaptureMetadata, MetadataError>(e)),
        spec_entry_error(*width, MetadataField::Width) is None
            && spec_entry_error(*height, MetadataField::Height) is None
            && spec_entry_error(*stride, MetadataField::Stride) is None
            ==> (spec_entry_error(*format, MetadataField::Format) matches Some(e)
            ==> r == Err::<CaptureMetadata, MetadataError>(e)),
        r is Ok <==> (spec_entry_error(*width, MetadataField::Width) is None
            && spec_entry_error(*height, MetadataField::Height) is None
            && spec_entry_error(*stride, MetadataField::Stride) is None
            && spec_entry_error(*format, MetadataField::Format) is None),
        r matches Ok(m) ==> {
            &&& Some(m.width) == spec_u32_of(width->0)
            &&& Some(m.height) == spec_u32_of(height->0)
            &&& Some(m.stride) == spec_u32_of(stride->0)
            &&& Some(m.format) == spec_u32_of(format->0)
        },
{
    let width = match field_u32(width, MetadataField::Width) {
        Ok(v) => v,
        Err(e) => return Err(e),
    };
    let height = match field_u32(height, MetadataField::Height) {
        Ok(v) => v,
        Err(e) => return Err(e),
    };
    let stride = match field_u32(stride, MetadataField::Stride) {
        Ok(v) => v,
        Err(e) => return Err(e),
    };
    let format = match field_u32(format, MetadataField::Format) {
        Ok(v) => v,
        Err(e) => return Err(e),
    };
    Ok(CaptureMetadata { width, height, stride, format })
}

} // verus!
