use crate::img_dispatcher::ImgLayerMetadata;
use core::cmp::Ordering;
use vstd::std_specs::cmp::OrdSpec;
use vstd::prelude::*;

verus! {

/// `val` held to the range `[min, max]`: `min` below it, `max` above it.
pub open spec fn clamped<T: Ord>(val: T, min: T, max: T) -> T {
    if val.cmp_spec(&min) == Ordering::Less {
        min
    } else if val.cmp_spec(&max) == Ordering::Greater {
        max
    } else {
        val
    }
}

/// `min` if `val` is below `min`, else `max` if `val` is above `max`, else
/// `val`.
pub fn clamp<T: Ord>(val: T, min: T, max: T) -> (r: T)
    ensures
        T::obeys_cmp_spec() ==> r == clamped(val, min, max),
{
    match val.cmp(&min) {
        Ordering::Less => min,
        _ => match val.cmp(&max) {
            Ordering::Greater => max,
            _ => val,
        },
    }
}

/// The bounds of band `i` out of `sections` equal bands of a layer's vertical
/// extent: `section_height` rows each, held to the layer's extent.
pub open spec fn section_bound(layer: ImgLayerMetadata, sections: nat, i: int) -> (usize, usize) {
    let section_height = (layer.y_end - layer.y_start) / (sections as int);
    (
        clamped(
            (layer.y_start + section_height * i) as usize,
            layer.y_start,
            layer.y_end,
        ),
        clamped((layer.y_start + section_height * (i + 1)) as usize, layer.y_start, layer.y_end),
    )
}

/// Divides the vertical extent of `layer_metadata` into `sections` bands of
/// equal height, top to bottom; the rows that do not divide evenly are left
/// below the last band.
pub fn section_bounds(layer_metadata: &ImgLayerMetadata, sections: usize) -> (bounds: Vec<
    (usize, usize),
>)
    requires
        layer_metadata.wf(),
        sections > 0,
    ensures
        bounds@.len() == sections,
        forall|i: int|
            0 <= i < sections ==> #[trigger] bounds@[i] == section_bound(
                *layer_metadata,
                sections as nat,
                i,
            ),
        forall|i: int|
            0 <= i < sections ==> layer_metadata.y_start <= (#[trigger] bounds@[i]).0 <= bounds@[i].1
                <= layer_metadata.y_end,
        forall|i: int|
            0 <= i < sections - 1 ==> (#[trigger] bounds@[i]).1 == bounds@[i + 1].0,
{
    let y_start = layer_metadata.y_start;
    let y_end = layer_metadata.y_end;
    let section_height = (y_end - y_start) / sections;
    proof {
        vstd::arithmetic::div_mod::lemma_fundamental_div_mod((y_end - y_start) as int, sections as int);
        vstd::arithmetic::div_mod::lemma_mod_bound((y_end - y_start) as int, sections as int);
        assert(section_height * sections <= y_end - y_start) by (nonlinear_arith)
            requires
                (y_end - y_start) == sections * section_height + (y_end - y_start) % (sections as int),
                (y_end - y_start) % (sections as int) >= 0,
        ;
    }
    let mut bounds = Vec::<(usize, usize)>::new();
    let mut i: usize = 0;
    while i < sections
        invariant
            layer_metadata.wf(),
            y_start == layer_metadata.y_start,
            y_end == layer_metadata.y_end,
            section_height == (y_end - y_start) / (sections as int),
            section_height * sections <= y_end - y_start,
            i <= sections,
            bounds@.len() == i,
            forall|k: int|
                0 <= k < i ==> #[trigger] bounds@[k] == (
                    (y_start + section_height * k) as usize,
                    (y_start + section_height * (k + 1)) as usize,
                ),
            forall|k: int|
                0 <= k < i ==> #[trigger] bounds@[k] == section_bound(
                    *layer_metadata,
                    sections as nat,
                    k,
                ),
        decreases sections - i,
    {
        proof {
            assert(section_height * (i + 1) <= section_height * sections) by (nonlinear_arith)
                requires
                    i + 1 <= sections,
                    section_height >= 0,
            ;
            assert(section_height * i <= section_height * (i + 1)) by (nonlinear_arith)
                requires
                    section_height >= 0,
            ;
        }
        let start = clamp(y_start + section_height * i, y_start, y_end);
        let end = clamp(y_start + section_height * (i + 1), y_start, y_end);
        bounds.push((start, end));
        i = i + 1;
    }
    proof {
        assert forall|k: int| 0 <= k < sections - 1 implies (#[trigger] bounds@[k]).1 == bounds@[k
            + 1].0 by {
            assert(bounds@[k + 1].0 == (y_start + section_height * (k + 1)) as usize);
        }
        assert forall|k: int| 0 <= k < sections implies y_start <= (#[trigger] bounds@[k]).0
            <= bounds@[k].1 <= y_end by {
            assert(section_height * k <= section_height * (k + 1)) by (nonlinear_arith)
                requires
                    section_height >= 0,
            ;
            assert(section_height * (k + 1) <= section_height * sections) by (nonlinear_arith)
                requires
                    k + 1 <= sections,
                    section_height >= 0,
            ;
            assert(0 <= section_height * k) by (nonlinear_arith)
                requires
                    section_height >= 0,
                    k >= 0,
            ;
        }
    }
    bounds
}

} // verus!
