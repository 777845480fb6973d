//! The tray icon fallback: a stock system icon read as 32-bit pixels,
//! turned into RGBA.

use vstd::prelude::*;

verus! {

/// Number of whole 4-byte pixels.
pub open spec fn pixels(s: Seq<u8>) -> int {
    (s.len() / 4) as int
}

/// Every whole pixel of the colour bitmap has alpha 0.
pub open spec fn alpha_all_zero(color: Seq<u8>) -> bool {
    forall|p: int| 0 <= p < pixels(color) ==> #[trigger] color[4 * p + 3] == 0
}

/// Alpha of pixel `p` in the result: kept when the colour bitmap has any
/// alpha; otherwise taken from the mask (mask byte 0 = opaque) where the
/// mask has that pixel, or opaque when there is no mask at all.
pub open spec fn alpha_of(color: Seq<u8>, mask: Option<Seq<u8>>, p: int) -> u8 {
    if !alpha_all_zero(color) {
        color[4 * p + 3]
    } else {
        match mask {
            Some(m) => if p < pixels(m) {
                if m[4 * p] == 0 {
                    255
                } else {
                    0
                }
            } else {
                color[4 * p + 3]
            },
            None => 255,
        }
    }
}

/// `r` is the RGBA form of the BGRA bitmap `color` with mask `mask`: blue and
/// red swapped in every whole pixel, alpha as `alpha_of` says, trailing bytes kept.
pub open spec fn is_rgba_of(r: Seq<u8>, color: Seq<u8>, mask: Option<Seq<u8>>) -> bool {
    &&& r.len() == color.len()
    &&& forall|p: int|
        0 <= p < pixels(color) ==> {
            &&& #[trigger] r[4 * p] == color[4 * p + 2]
            &&& r[4 * p + 1] == color[4 * p + 1]
            &&& r[4 * p + 2] == color[4 * p]
            &&& r[4 * p + 3] == alpha_of(color, mask, p)
        }
    &&& forall|i: int| 4 * pixels(color) <= i < color.len() ==> #[trigger] r[i] == color[i]
}

/// Turns the 32-bit BGRA colour bitmap of an icon (and its mask, if any)
/// into RGBA.
pub fn icon_rgba(color: Vec<u8>, mask: Option<Vec<u8>>) -> (r: Vec<u8>)
    ensures
        is_rgba_of(
            r@,
            color@,
            match mask {
                Some(m) => Some(m@),
                None => None,
            },
        ),
{
    let ghost c = color@;
    let ghost mv = match &mask {
        Some(m) => Some(m@),
        None => None,
    };
    let len = color.len();
    let n = len / 4;
    let mut rgba = color;
    let mut p: usize = 0;
    let mut all_zero = true;
    while p < n
        invariant
            len == c.len(),
            n == c.len() / 4,
            p <= n,
            rgba@.len() == c.len(),
            forall|q: int|
                0 <= q < p ==> {
                    &&& #[trigger] rgba@[4 * q] == c[4 * q + 2]
                    &&& rgba@[4 * q + 1] == c[4 * q + 1]
                    &&& rgba@[4 * q + 2] == c[4 * q]
                },
            forall|i: int| 4 * p <= i < c.len() ==> #[trigger] rgba@[i] == c[i],
            forall|q: int| 0 <= q < n ==> #[trigger] rgba@[4 * q + 3] == c[4 * q + 3],
            all_zero == forall|q: int| 0 <= q < p ==> #[trigger] c[4 * q + 3] == 0,
        decreases n - p,
    {
        assert(4 * p + 3 < len);
        let b = rgba[4 * p];
        let red = rgba[4 * p + 2];
        rgba.set(4 * p, red);
        rgba.set(4 * p + 2, b);
        if rgba[4 * p + 3] != 0 {
            all_zero = false;
        }
        p = p + 1;
        assert(all_zero == forall|q: int| 0 <= q < p ==> #[trigger] c[4 * q + 3] == 0) by {
            if all_zero {
                assert forall|q: int| 0 <= q < p implies #[trigger] c[4 * q + 3] == 0 by {
                    if q < p - 1 {
                    }
                }
            } else {
                if c[4 * (p - 1) + 3] != 0 {
                } else {
                    let q0 = choose|q: int| 0 <= q < p - 1 && !(#[trigger] c[4 * q + 3] == 0);
                    assert(!(c[4 * q0 + 3] == 0));
                }
            }
        }
    }
    if all_zero {
        match mask {
            Some(m) => {
                let mn = m.len() / 4;
                let mut q: usize = 0;
                while q < n && q < mn
                    invariant
                        len == c.len(),
                        n == c.len() / 4,
                        mn == m@.len() / 4,
                        q <= n,
                        rgba@.len() == c.len(),
                        alpha_all_zero(c),
                        mv == Some(m@),
                        forall|j: int|
                            0 <= j < n ==> {
                                &&& #[trigger] rgba@[4 * j] == c[4 * j + 2]
                                &&& rgba@[4 * j + 1] == c[4 * j + 1]
                                &&& rgba@[4 * j + 2] == c[4 * j]
                            },
                        forall|i: int| 4 * n <= i < c.len() ==> #[trigger] rgba@[i] == c[i],
                        forall|j: int|
                            0 <= j < n ==> #[trigger] rgba@[4 * j + 3] == if j < q {
                                alpha_of(c, mv, j)
                            } else {
                                c[4 * j + 3]
                            },
                    decreases n - q,
                {
                    assert(4 * q + 3 < len);
                    let a: u8 = if m[4 * q] == 0 {
                        255
                    } else {
                        0
                    };
                    let ghost before = rgba@;
                    rgba.set(4 * q + 3, a);
                    assert forall|j: int| 0 <= j < n implies {
                        &&& #[trigger] rgba@[4 * j] == before[4 * j]
                        &&& rgba@[4 * j + 1] == before[4 * j + 1]
                        &&& rgba@[4 * j + 2] == before[4 * j + 2]
                    } by {
                        assert(4 * j != 4 * q + 3);
                        assert(4 * j + 1 != 4 * q + 3);
                        assert(4 * j + 2 != 4 * q + 3);
                    }
                    assert forall|i: int| 4 * n <= i < c.len() implies #[trigger] rgba@[i]
                        == before[i] by {}
                    q = q + 1;
                }
                assert forall|j: int| 0 <= j < n implies #[trigger] rgba@[4 * j + 3] == alpha_of(
                    c,
                    mv,
                    j,
                ) by {
                    if j >= q {
                        assert(j >= mn);
                    }
                }
            },
            None => {
                let mut q: usize = 0;
                while q < n
                    invariant
                        len == c.len(),
                        n == c.len() / 4,
                        q <= n,
                        rgba@.len() == c.len(),
                        alpha_all_zero(c),
                        mv is None,
                        forall|j: int|
                            0 <= j < n ==> {
                                &&& #[trigger] rgba@[4 * j] == c[4 * j + 2]
                                &&& rgba@[4 * j + 1] == c[4 * j + 1]
                                &&& rgba@[4 * j + 2] == c[4 * j]
                            },
                        forall|i: int| 4 * n <= i < c.len() ==> #[trigger] rgba@[i] == c[i],
                        forall|j: int|
                            0 <= j < n ==> #[trigger] rgba@[4 * j + 3] == if j < q {
                                255u8
                            } else {
                                c[4 * j + 3]
                            },
                    decreases n - q,
                {
                    assert(4 * q + 3 < len);
                    let ghost before = rgba@;
                    rgba.set(4 * q + 3, 255);
                    assert forall|j: int| 0 <= j < n implies {
                        &&& #[trigger] rgba@[4 * j] == before[4 * j]
                        &&& rgba@[4 * j + 1] == before[4 * j + 1]
                        &&& rgba@[4 * j + 2] == before[4 * j + 2]
                    } by {
                        assert(4 * j != 4 * q + 3);
                        assert(4 * j + 1 != 4 * q + 3);
                        assert(4 * j + 2 != 4 * q + 3);
                    }
                    assert forall|i: int| 4 * n <= i < c.len() implies #[trigger] rgba@[i]
                        == before[i] by {}
                    q = q + 1;
                }
            },
        }
    }
    rgba
}

} // verus!
