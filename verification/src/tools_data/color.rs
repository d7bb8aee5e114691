//! Colors for new categories, chosen to stand out from the colors in use.
//!
//! Distances between colors are Euclidean distances in RGB space. They are
//! compared by their squares, which are integers and ordered alike.

use vstd::prelude::*;

verus! {

/// A color: red, green and blue.
pub type Rgb = [u8; 3];

/// The number of random colors of which `new_color` picks one.
pub const N_PROPOSALS: usize = 10;

/// The squared distance of two colors.
pub open spec fn sq_dist(c1: Rgb, c2: Rgb) -> int {
    (c1[0] - c2[0]) * (c1[0] - c2[0]) + (c1[1] - c2[1]) * (c1[1] - c2[1]) + (c1[2] - c2[2]) * (
    c1[2] - c2[2])
}

/// The squared distance of `c` to the nearest of the first `n` colors of
/// `legacy`; 0 if there is none.
pub open spec fn min_sq_dist_upto(c: Rgb, legacy: Seq<Rgb>, n: int) -> int
    decreases n,
{
    if n <= 0 {
        0
    } else if n == 1 {
        sq_dist(legacy[0], c)
    } else {
        let d = sq_dist(legacy[n - 1], c);
        let rest = min_sq_dist_upto(c, legacy, n - 1);
        if d < rest {
            d
        } else {
            rest
        }
    }
}

/// The squared distance of `c` to the nearest color of `legacy`; 0 if there
/// is none.
pub open spec fn min_sq_dist(c: Rgb, legacy: Seq<Rgb>) -> int {
    min_sq_dist_upto(c, legacy, legacy.len() as int)
}

/// The color at `k` is as far from its nearest color of `legacy` as any
/// color of `picklist` is from its, and farther than all that follow it.
pub open spec fn is_farthest(picklist: Seq<Rgb>, legacy: Seq<Rgb>, k: int) -> bool {
    &&& 0 <= k < picklist.len()
    &&& forall|j: int|
        0 <= j < picklist.len() ==> min_sq_dist(#[trigger] picklist[j], legacy) <= min_sq_dist(
            picklist[k],
            legacy,
        )
    &&& forall|j: int|
        k < j < picklist.len() ==> min_sq_dist(#[trigger] picklist[j], legacy) < min_sq_dist(
            picklist[k],
            legacy,
        )
}

/// `c` is the color that `argmax_clr_dist` picks from `picklist`.
pub open spec fn is_pick(c: Rgb, picklist: Seq<Rgb>, legacy: Seq<Rgb>) -> bool {
    exists|k: int| is_farthest(picklist, legacy, k) && c == picklist[k]
}

/// The minimal squared distance to the colors of `legacy` is the distance
/// to one of them, and no color of `legacy` is nearer.
pub proof fn lemma_min_sq_dist(c: Rgb, legacy: Seq<Rgb>, n: int)
    requires
        0 < n <= legacy.len(),
    ensures
        forall|i: int| 0 <= i < n ==> min_sq_dist_upto(c, legacy, n) <= sq_dist(
            #[trigger] legacy[i],
            c,
        ),
        exists|i: int| 0 <= i < n && min_sq_dist_upto(c, legacy, n) == sq_dist(
            #[trigger] legacy[i],
            c,
        ),
    decreases n,
{
    if n > 1 {
        lemma_min_sq_dist(c, legacy, n - 1);
        let i = choose|i: int| 0 <= i < n - 1 && min_sq_dist_upto(c, legacy, n - 1) == sq_dist(
            #[trigger] legacy[i],
            c,
        );
        if sq_dist(legacy[n - 1], c) < min_sq_dist_upto(c, legacy, n - 1) {
            assert(min_sq_dist_upto(c, legacy, n) == sq_dist(legacy[n - 1], c));
        } else {
            assert(min_sq_dist_upto(c, legacy, n) == sq_dist(legacy[i], c));
        }
    } else {
        assert(min_sq_dist_upto(c, legacy, n) == sq_dist(legacy[0], c));
    }
}

fn sq_diff(a: u8, b: u8) -> (r: u32)
    ensures
        r == (a - b) * (a - b),
        r <= 65025,
{
    let d: u32 = if a >= b {
        (a - b) as u32
    } else {
        (b - a) as u32
    };
    assert(d * d <= 65025 && d * d == (a - b) * (a - b)) by (nonlinear_arith)
        requires
            d <= 255,
            d == a - b || d == b - a,
    ;
    d * d
}

fn color_sq_dist(c1: Rgb, c2: Rgb) -> (r: u32)
    ensures
        r == sq_dist(c1, c2),
{
    sq_diff(c1[0], c2[0]) + sq_diff(c1[1], c2[1]) + sq_diff(c1[2], c2[2])
}

fn min_dist_to(c: Rgb, legacylist: &[Rgb]) -> (r: u32)
    ensures
        r == min_sq_dist(c, legacylist@),
{
    if legacylist.len() == 0 {
        return 0;
    }
    let mut best = color_sq_dist(legacylist[0], c);
    let mut i: usize = 1;
    while i < legacylist.len()
        invariant
            1 <= i <= legacylist.len(),
            best == min_sq_dist_upto(c, legacylist@, i as int),
        decreases legacylist.len() - i,
    {
        let d = color_sq_dist(legacylist[i], c);
        if d < best {
            best = d;
        }
        i += 1;
    }
    best
}

/// A random color.
pub fn random_clr() -> Rgb {
    let r = random_u8();
    let g = random_u8();
    let b = random_u8();
    [r, g, b]
}

/// Calls `rand::random::<u8>()`: a byte drawn by the random number
/// generator of the thread. Nothing is claimed of it.
#[verifier::external_body]
fn random_u8() -> u8 {
    rand::random::<u8>()
}

/// Picks from `picklist` the color that is farthest from the colors of
/// `legacylist`: the one whose distance to the nearest color of
/// `legacylist` is greatest and, of several such, the last. Without any
/// color in `legacylist` that is the last of `picklist`.
pub fn argmax_clr_dist(picklist: &[Rgb], legacylist: &[Rgb]) -> (c: Rgb)
    requires
        picklist.len() > 0,
    ensures
        is_pick(c, picklist@, legacylist@),
{
    let mut idx: usize = 0;
    let mut best = min_dist_to(picklist[0], legacylist);
    let mut i: usize = 1;
    while i < picklist.len()
        invariant
            1 <= i <= picklist.len(),
            idx < i,
            best == min_sq_dist(picklist[idx as int], legacylist@),
            forall|j: int|
                0 <= j < i ==> min_sq_dist(#[trigger] picklist[j], legacylist@) <= best,
            forall|j: int|
                idx < j < i ==> min_sq_dist(#[trigger] picklist[j], legacylist@) < best,
        decreases picklist.len() - i,
    {
        let d = min_dist_to(picklist[i], legacylist);
        if d >= best {
            idx = i;
            best = d;
        }
        i += 1;
    }
    assert(is_farthest(picklist@, legacylist@, idx as int));
    picklist[idx]
}

/// A color for a new category: of `N_PROPOSALS` random colors the one
/// that `argmax_clr_dist` picks against the colors in use. Whatever the
/// random colors were, the result is one of them, and none of them is
/// farther from the colors in use.
pub fn new_color(colors: &[Rgb]) -> (c: Rgb)
    ensures
        exists|proposals: Seq<Rgb>|
            proposals.len() == N_PROPOSALS && #[trigger] is_pick(c, proposals, colors@),
{
    let mut proposals: Vec<Rgb> = Vec::new();
    let mut i: usize = 0;
    while i < N_PROPOSALS
        invariant
            i <= N_PROPOSALS,
            proposals.len() == i,
        decreases N_PROPOSALS - i,
    {
        proposals.push(random_clr());
        i += 1;
    }
    let c = argmax_clr_dist(proposals.as_slice(), colors);
    assert(is_pick(c, proposals@, colors@));
    c
}

} // verus!
