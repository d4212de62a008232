use vstd::prelude::*;

verus! {

/// When an annotation is visible.
#[derive(Debug, Clone, Copy, PartialEq, Eq, Structural, Hash)]
pub enum AnnotationVisibility {
    Build,
    Runtime,
    System,
}

impl AnnotationVisibility {
    /// The visibility with the given encoded value, if there is one.
    pub fn from_u8(value: u8) -> (res: Option<Self>)
        ensures
            value == 0 ==> res == Some(AnnotationVisibility::Build),
            value == 1 ==> res == Some(AnnotationVisibility::Runtime),
            value == 2 ==> res == Some(AnnotationVisibility::System),
            value > 2 ==> res.is_none(),
    {
        match value {
            0 => Some(AnnotationVisibility::Build),
            1 => Some(AnnotationVisibility::Runtime),
            2 => Some(AnnotationVisibility::System),
            _ => None,
        }
    }

    /// The encoded value of the visibility.
    pub fn value(&self) -> (res: u8)
        ensures
            res == match *self {
                AnnotationVisibility::Build => 0u8,
                AnnotationVisibility::Runtime => 1u8,
                AnnotationVisibility::System => 2u8,
            },
    {
        match self {
            AnnotationVisibility::Build => 0,
            AnnotationVisibility::Runtime => 1,
            AnnotationVisibility::System => 2,
        }
    }
}

} // verus!
