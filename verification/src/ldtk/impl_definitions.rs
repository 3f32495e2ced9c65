use vstd::prelude::*;

use crate::ldtk::{Definitions, LayerDefinition, Type};

verus! {

/// Layers that the int grid image is made for: IntGrid layers without a tileset.
pub open spec fn uses_int_grid_image(layer: LayerDefinition) -> bool {
    layer.purple_type == Type::IntGrid && layer.tileset_def_uid is None
}

/// The largest grid size among the layers that use the int grid image, if there are any.
pub open spec fn int_grid_image_size(layers: Seq<LayerDefinition>) -> Option<i32>
    decreases layers.len(),
{
    if layers.len() == 0 {
        None
    } else {
        let rest = int_grid_image_size(layers.drop_last());
        let layer = layers.last();
        if uses_int_grid_image(layer) {
            match rest {
                Some(size) => Some(if layer.grid_size >= size { layer.grid_size } else { size }),
                None => Some(layer.grid_size),
            }
        } else {
            rest
        }
    }
}

/// A square image filled with a single color: the image used for rendering int grid colors.
#[derive(Copy, Clone, Debug, PartialEq, Eq)]
pub struct IntGridImage {
    /// Width in pixels.
    pub width: u32,
    /// Height in pixels.
    pub height: u32,
    /// The RGBA color of every pixel.
    pub pixel: [u8; 4],
}

impl Definitions {
    /// Create the white image used for rendering int grid colors.
    ///
    /// Its size is the largest grid size among IntGrid layers without a tileset.
    /// There is none if there are no such layers.
    pub fn create_int_grid_image(&self) -> (image: Option<IntGridImage>)
        ensures
            match int_grid_image_size(self.layers@) {
                Some(size) => image matches Some(i) && i.width == size as u32 && i.height
                    == size as u32 && i.pixel == [255u8, 255u8, 255u8, 255u8],
                None => image is None,
            },
    {
        let mut size: Option<i32> = None;
        let mut i: usize = 0;
        while i < self.layers.len()
            invariant
                i <= self.layers@.len(),
                size == int_grid_image_size(self.layers@.take(i as int)),
            decreases self.layers@.len() - i,
        {
            assert(self.layers@.take(i + 1).drop_last() =~= self.layers@.take(i as int));
            let layer = &self.layers[i];
            if layer.purple_type == Type::IntGrid && layer.tileset_def_uid.is_none() {
                size = match size {
                    Some(s) => Some(if layer.grid_size >= s { layer.grid_size } else { s }),
                    None => Some(layer.grid_size),
                };
            }
            i = i + 1;
        }
        assert(self.layers@.take(self.layers@.len() as int) =~= self.layers@);
        match size {
            Some(s) => Some(
                IntGridImage { width: s as u32, height: s as u32, pixel: [255u8, 255u8, 255u8, 255u8] },
            ),
            None => None,
        }
    }
}

} // verus!
