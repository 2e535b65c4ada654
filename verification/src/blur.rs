use vstd::prelude::*;

verus! {

/// Number of downsample (and upsample) passes of the dual-filter blur.
pub const BLUR_PASSES: u32 = 3;

/// Half of `v`, rounded up.
pub open spec fn half_up(v: int) -> int {
    (v + 1) / 2
}

/// Size of downsample level `k` (level 0 is the source).
pub open spec fn level_size(w: int, h: int, k: nat) -> (int, int)
    decreases k,
{
    if k == 0 {
        (w, h)
    } else {
        let (pw, ph) = level_size(w, h, (k - 1) as nat);
        (half_up(pw), half_up(ph))
    }
}

/// Sizes of the downsampled textures of a `passes`-level dual-filter blur of
/// a `width x height` texture: each level halves the previous one, rounding up.
/// The upsample chain renders back through the same sizes in reverse,
/// ending at the source size.
pub fn blur_pyramid(width: u32, height: u32, passes: u32) -> (levels: Vec<(u32, u32)>)
    ensures
        levels@.len() == passes,
        forall|i: int| 0 <= i < passes ==> (#[trigger] levels@[i].0 as int, levels@[i].1 as int) == level_size(
            width as int,
            height as int,
            (i + 1) as nat,
        ),
{
    let mut levels: Vec<(u32, u32)> = Vec::new();
    let mut cur_w = width;
    let mut cur_h = height;
    let mut i: u32 = 0;
    while i < passes
        invariant
            i <= passes,
            levels@.len() == i,
            (cur_w as int, cur_h as int) == level_size(width as int, height as int, i as nat),
            forall|j: int| 0 <= j < i ==> (#[trigger] levels@[j].0 as int, levels@[j].1 as int) == level_size(
                width as int,
                height as int,
                (j + 1) as nat,
            ),
        decreases passes - i,
    {
        cur_w = cur_w / 2 + cur_w % 2;
        cur_h = cur_h / 2 + cur_h % 2;
        levels.push((cur_w, cur_h));
        i = i + 1;
    }
    levels
}

/// Every level is at least one pixel wide and high when the source is, and
/// never larger than the level before it.
pub proof fn lemma_pyramid_shrinks(w: int, h: int, k: nat)
    requires
        w >= 1,
        h >= 1,
    ensures
        level_size(w, h, k).0 >= 1 && level_size(w, h, k).1 >= 1,
        level_size(w, h, k + 1).0 <= level_size(w, h, k).0,
        level_size(w, h, k + 1).1 <= level_size(w, h, k).1,
    decreases k,
{
    if k > 0 {
        lemma_pyramid_shrinks(w, h, (k - 1) as nat);
    }
}

} // verus!
