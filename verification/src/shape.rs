//! Drawing-object records: shape components and the picture component that
//! references an embedded image by its `BinData` id.

use crate::byteops::{le16, le32, read_u16_le, read_u32_le};
use crate::record::{
    HWPTAG_SHAPE_COMPONENT_CONTAINER, HWPTAG_SHAPE_COMPONENT_CURVE, HWPTAG_SHAPE_COMPONENT_ELLIPSE,
    HWPTAG_SHAPE_COMPONENT_LINE, HWPTAG_SHAPE_COMPONENT_OLE, HWPTAG_SHAPE_COMPONENT_PICTURE,
    HWPTAG_SHAPE_COMPONENT_POLYGON, HWPTAG_SHAPE_COMPONENT_RECTANGLE,
};
use vstd::prelude::*;

verus! {

/// The kind of a drawing object, from its record tag.
#[derive(Debug, Clone, Copy, PartialEq, Eq, Structural)]
pub enum ShapeType {
    Line,
    Rectangle,
    Ellipse,
    Arc,
    Polygon,
    Curve,
    Picture,
    Ole,
    Container,
    Unknown(u16),
}

/// The shape kind a record tag names.
pub open spec fn spec_shape_type(tag: u16) -> ShapeType {
    if tag == HWPTAG_SHAPE_COMPONENT_LINE {
        ShapeType::Line
    } else if tag == HWPTAG_SHAPE_COMPONENT_RECTANGLE {
        ShapeType::Rectangle
    } else if tag == HWPTAG_SHAPE_COMPONENT_ELLIPSE {
        ShapeType::Ellipse
    } else if tag == HWPTAG_SHAPE_COMPONENT_POLYGON {
        ShapeType::Polygon
    } else if tag == HWPTAG_SHAPE_COMPONENT_CURVE {
        ShapeType::Curve
    } else if tag == HWPTAG_SHAPE_COMPONENT_PICTURE {
        ShapeType::Picture
    } else if tag == HWPTAG_SHAPE_COMPONENT_OLE {
        ShapeType::Ole
    } else if tag == HWPTAG_SHAPE_COMPONENT_CONTAINER {
        ShapeType::Container
    } else {
        ShapeType::Unknown(tag)
    }
}

impl From<u16> for ShapeType {
    /// Classifies a record tag as a shape kind.
    fn from(tag: u16) -> (r: Self) {
        if tag == HWPTAG_SHAPE_COMPONENT_LINE {
            ShapeType::Line
        } else if tag == HWPTAG_SHAPE_COMPONENT_RECTANGLE {
            ShapeType::Rectangle
        } else if tag == HWPTAG_SHAPE_COMPONENT_ELLIPSE {
            ShapeType::Ellipse
        } else if tag == HWPTAG_SHAPE_COMPONENT_POLYGON {
            ShapeType::Polygon
        } else if tag == HWPTAG_SHAPE_COMPONENT_CURVE {
            ShapeType::Curve
        } else if tag == HWPTAG_SHAPE_COMPONENT_PICTURE {
            ShapeType::Picture
        } else if tag == HWPTAG_SHAPE_COMPONENT_OLE {
            ShapeType::Ole
        } else if tag == HWPTAG_SHAPE_COMPONENT_CONTAINER {
            ShapeType::Container
        } else {
            ShapeType::Unknown(tag)
        }
    }
}

impl vstd::std_specs::convert::FromSpecImpl<u16> for ShapeType {
    open spec fn obeys_from_spec() -> bool {
        true
    }

    open spec fn from_spec(tag: u16) -> Self {
        spec_shape_type(tag)
    }
}

/// A drawing object's geometry, and for pictures the image it references.
#[derive(Debug, Clone)]
pub struct ShapeComponent {
    pub shape_type: ShapeType,
    pub x: i32,
    pub y: i32,
    pub width: u32,
    pub height: u32,
    pub rotation: i16,
    pub x_flip: bool,
    pub y_flip: bool,
    pub bin_data_id: Option<u16>,
    pub alt_text: Option<String>,
}

impl Default for ShapeComponent {
    /// A degenerate shape of unknown kind at the origin.
    fn default() -> (r: Self)
        ensures
            r.shape_type == ShapeType::Unknown(0u16),
            r.x == 0 && r.y == 0 && r.width == 0 && r.height == 0 && r.rotation == 0,
            !r.x_flip && !r.y_flip,
            r.bin_data_id is None && r.alt_text is None,
    {
        ShapeComponent {
            shape_type: ShapeType::Unknown(0),
            x: 0,
            y: 0,
            width: 0,
            height: 0,
            rotation: 0,
            x_flip: false,
            y_flip: false,
            bin_data_id: None,
            alt_text: None,
        }
    }
}

/// The signed value of a sixteen-bit word, two's complement.
pub open spec fn sign16(w: u16) -> int {
    if w < 0x8000 {
        w as int
    } else {
        w as int - 0x10000
    }
}

/// The signed value of a 32-bit word, two's complement.
pub open spec fn sign32(w: u32) -> int {
    if w < 0x8000_0000 {
        w as int
    } else {
        w as int - 0x1_0000_0000
    }
}

/// Signed division by ten, rounding toward zero.
pub open spec fn div10_trunc(r: int) -> int {
    if r >= 0 {
        r / 10
    } else {
        -((-r) / 10)
    }
}

fn to_i16(w: u16) -> (r: i16)
    ensures
        r as int == sign16(w),
{
    if w < 0x8000 {
        w as i16
    } else if w == 0x8000 {
        -32768
    } else {
        let m: u32 = 0x10000 - (w as u32);
        -((m as u16) as i16)
    }
}

fn to_i32(w: u32) -> (r: i32)
    ensures
        r as int == sign32(w),
{
    if w < 0x8000_0000 {
        w as i32
    } else if w == 0x8000_0000 {
        -0x8000_0000
    } else {
        let m: u64 = 0x1_0000_0000 - (w as u64);
        -((m as u32) as i32)
    }
}

/// Decodes a `SHAPE_COMPONENT` record payload: rotation in tenths of a
/// degree at bytes 4 to 5 (converted to whole degrees), the signed position
/// at bytes 6 to 13, the extent at bytes 14 to 21 and the flips at bytes 22
/// and 23; payloads below 24 bytes are rejected.
pub fn parse_shape_component(data: &[u8], shape_type: ShapeType) -> (r: Option<ShapeComponent>)
    ensures
        data@.len() < 24 ==> r is None,
        data@.len() >= 24 ==> (r matches Some(s) && {
            &&& s.shape_type == shape_type
            &&& s.rotation as int == div10_trunc(sign16(le16(data@, 4)))
            &&& s.x as int == sign32(le32(data@, 6))
            &&& s.y as int == sign32(le32(data@, 10))
            &&& s.width == le32(data@, 14)
            &&& s.height == le32(data@, 18)
            &&& s.x_flip == (data@[22] != 0)
            &&& s.y_flip == (data@[23] != 0)
            &&& s.bin_data_id is None
            &&& s.alt_text is None
        }),
{
    if data.len() < 24 {
        return None;
    }
    let rotation = to_i16(read_u16_le(data, 4));
    let x = to_i32(read_u32_le(data, 6));
    let y = to_i32(read_u32_le(data, 10));
    let width = read_u32_le(data, 14);
    let height = read_u32_le(data, 18);
    let x_flip = crate::byteops::byte_at(data, 22) != 0;
    let y_flip = crate::byteops::byte_at(data, 23) != 0;
    let rot10: i16 = if rotation >= 0 {
        rotation / 10
    } else {
        let neg: i32 = -(rotation as i32);
        let q: i32 = neg / 10;
        let back: i32 = -q;
        back as i16
    };
    proof {
        assert(rot10 as int == div10_trunc(sign16(le16(data@, 4))));
    }
    Some(
        ShapeComponent {
            shape_type,
            x,
            y,
            width,
            height,
            rotation: rot10,
            x_flip,
            y_flip,
            bin_data_id: None,
            alt_text: None,
        },
    )
}

/// Decodes a `SHAPE_COMPONENT_PICTURE` record: the shape geometry followed
/// by the referenced `BinData` id, read at byte 52 where the payload is long
/// enough, else at byte 24, else zero.
pub fn parse_picture_component(data: &[u8]) -> (r: Option<(ShapeComponent, u16)>)
    ensures
        data@.len() < 24 ==> r is None,
        data@.len() >= 24 ==> (r matches Some((s, id)) && {
            &&& s.shape_type == ShapeType::Picture
            &&& id == if data@.len() >= 54 {
                le16(data@, 52)
            } else if data@.len() >= 26 {
                le16(data@, 24)
            } else {
                0u16
            }
            &&& s.bin_data_id == if data@.len() >= 26 {
                Some(id)
            } else {
                Option::<u16>::None
            }
        }),
{
    let base = parse_shape_component(data, ShapeType::Picture);
    match base {
        None => None,
        Some(mut shape) => {
            if data.len() >= 54 {
                let bin_data_id = read_u16_le(data, 52);
                shape.bin_data_id = Some(bin_data_id);
                Some((shape, bin_data_id))
            } else if data.len() >= 26 {
                let bin_data_id = read_u16_le(data, 24);
                shape.bin_data_id = Some(bin_data_id);
                Some((shape, bin_data_id))
            } else {
                Some((shape, 0))
            }
        },
    }
}

} // verus!
