pub mod ps4;
pub mod psvita;
pub mod swizzle_manager;
pub mod xbox_360;

use vstd::arithmetic::div_mod::lemma_fundamental_div_mod_converse;
use vstd::prelude::*;

use crate::error::TexError;
use crate::graphics::pixel_format::PixelFormat;

verus! {

/// Trait for swizzling and deswizzling images. Implement it to add swizzlers
/// for further platforms.
pub trait Swizzable {
    fn swizzle(&self, pixels: &[u8], width: u32, height: u32, pixel_format: PixelFormat) -> Result<
        Vec<u8>,
        TexError,
    >;

    fn deswizzle(
        &self,
        pixels: &[u8],
        width: u32,
        height: u32,
        pixel_format: PixelFormat,
    ) -> Result<Vec<u8>, TexError>;

    fn get_platform(&self) -> Platform;
}

#[derive(Debug, Clone, Copy, PartialEq, Eq, Structural)]
pub enum Platform {
    PS4,
    PSVita,
    Xbox360,
    PS3,
    Switch,
    WiiU,
    Wii,
    Xbox,
    GameCube,
    PS2,
}

impl Platform {
    /// Display name of the platform.
    pub fn name(self) -> (r: &'static str)
    {
        match self {
            Platform::PS4 => "PS4",
            Platform::PSVita => "PS Vita",
            Platform::Xbox360 => "Xbox 360",
            Platform::PS3 => "PS3",
            Platform::Switch => "Nintendo Switch",
            Platform::WiiU => "Wii U",
            Platform::Wii => "Wii",
            Platform::Xbox => "Xbox 1",
            Platform::GameCube => "GameCube",
            Platform::PS2 => "PS2",
        }
    }
}

/// `order` is a permutation of the element indices `0 .. n`.
pub open spec fn spec_valid_order(order: Seq<usize>, n: int) -> bool {
    &&& order.len() == n
    &&& forall|k: int| 0 <= k < n ==> ((#[trigger] order[k]) as int) < n
    &&& forall|k1: int, k2: int| 0 <= k1 < k2 < n ==> order[k1] != order[k2]
    &&& forall|p: int| 0 <= p < n ==> #[trigger] order.contains(p as usize)
}

/// Reorder `data` in elements of `bs` bytes: element `k` of the result is
/// element `order[k]` of `data`; bytes past the reordered region are kept.
pub open spec fn spec_gather(data: Seq<u8>, order: Seq<usize>, bs: int) -> Seq<u8> {
    Seq::new(
        data.len(),
        |i: int|
            if i < order.len() * bs {
                data[(order[i / bs] as int) * bs + (i % bs)]
            } else {
                data[i]
            },
    )
}

/// The inverse permutation: `spec_invert(order, n)[p]` is the position of
/// element `p` in `order`.
pub open spec fn spec_invert(order: Seq<usize>, n: int) -> Seq<usize> {
    Seq::new(n as nat, |p: int| order.index_of(p as usize) as usize)
}

/// The inverse reordering: element `order[k]` of the result is element `k`
/// of `data`.
pub open spec fn spec_scatter(data: Seq<u8>, order: Seq<usize>, n: int, bs: int) -> Seq<u8> {
    spec_gather(data, spec_invert(order, n), bs)
}

/// A permutation and its inverse cancel: `order[inv[p]] == p` and
/// `inv[order[k]] == k`, and the inverse is itself a permutation.
pub proof fn lemma_invert_props(order: Seq<usize>, n: int)
    requires
        spec_valid_order(order, n),
        n <= usize::MAX,
    ensures
        spec_invert(order, n).len() == n,
        forall|p: int| 0 <= p < n ==> ((#[trigger] spec_invert(order, n)[p]) as int) < n,
        forall|p: int|
            0 <= p < n ==> (order[(#[trigger] spec_invert(order, n)[p]) as int] as int) == p,
        forall|k: int|
            0 <= k < n ==> ((#[trigger] spec_invert(order, n)[(order[k] as int)]) as int) == k,
        spec_valid_order(spec_invert(order, n), n),
{
    let inv = spec_invert(order, n);
    assert forall|p: int| 0 <= p < n implies ((#[trigger] inv[p]) as int) < n && (order[(
    inv[p]) as int] as int) == p by {
        assert(order.contains(p as usize));
        let k0 = order.index_of(p as usize);
        assert(0 <= k0 < order.len() && order[k0] == (p as usize));
        assert(inv[p] == k0 as usize);
    }
    assert forall|k: int| 0 <= k < n implies ((#[trigger] inv[(order[k] as int)]) as int) == k by {
        let p = order[k] as int;
        let k0 = inv[p] as int;
        assert((order[k0] as int) == p);
        if k0 != k {
            if k0 < k {
                assert(order[k0] != order[k]);
            } else {
                assert(order[k] != order[k0]);
            }
            assert(false);
        }
    }
    assert forall|p1: int, p2: int| 0 <= p1 < p2 < n implies inv[p1] != inv[p2] by {
        assert((order[inv[p1] as int] as int) == p1);
        assert((order[inv[p2] as int] as int) == p2);
    }
    assert forall|k: int| 0 <= k < n implies #[trigger] inv.contains(k as usize) by {
        let p = order[k] as int;
        assert(0 <= p < inv.len() && inv[p] == (k as usize));
    }
}

/// Two reorderings whose orders cancel (`a[b[q]] == q`) restore the data.
pub proof fn lemma_gather_gather(data: Seq<u8>, a: Seq<usize>, b: Seq<usize>, bs: int, n: int)
    requires
        bs >= 1,
        a.len() == n,
        b.len() == n,
        forall|k: int| 0 <= k < n ==> ((#[trigger] a[k]) as int) < n,
        forall|k: int| 0 <= k < n ==> ((#[trigger] b[k]) as int) < n,
        forall|q: int| 0 <= q < n ==> (a[(#[trigger] b[q]) as int] as int) == q,
        n * bs <= data.len(),
    ensures
        spec_gather(spec_gather(data, a, bs), b, bs) == data,
{
    let g = spec_gather(data, a, bs);
    let gg = spec_gather(g, b, bs);
    assert(g.len() == data.len());
    assert(gg.len() == data.len());
    assert forall|i: int| 0 <= i < data.len() implies gg[i] == data[i] by {
        if i < n * bs {
            let q = i / bs;
            let r = i % bs;
            assert(0 <= r < bs);
            assert(q * bs + r == i) by {
                vstd::arithmetic::div_mod::lemma_fundamental_div_mod(i, bs);
            }
            assert(0 <= q < n) by {
                assert(q * bs <= i) by (nonlinear_arith)
                    requires
                        q * bs + r == i,
                        r >= 0,
                ;
                assert(q < n) by (nonlinear_arith)
                    requires
                        q * bs <= i,
                        i < n * bs,
                        bs >= 1,
                        q >= 0,
                ;
                assert(q >= 0) by (nonlinear_arith)
                    requires
                        q * bs + r == i,
                        i >= 0,
                        0 <= r < bs,
                        bs >= 1,
                ;
            }
            let p = b[q] as int;
            assert(0 <= p < n);
            let j = p * bs + r;
            assert(gg[i] == g[j]);
            assert(j < n * bs && j >= 0 && j / bs == p && j % bs == r) by {
                assert(p * bs + bs <= n * bs && p * bs >= 0) by (nonlinear_arith)
                    requires
                        0 <= p < n,
                        bs >= 1,
                ;
                lemma_fundamental_div_mod_converse(j, bs, p, r);
            }
            assert(g[j] == data[(a[p] as int) * bs + r]);
            assert((a[p] as int) == q);
            assert(g[j] == data[i]);
        }
    }
    assert(gg =~= data);
}

/// Decide whether `order` is a permutation of `0 .. n`.
pub fn check_permutation(order: &Vec<usize>, n: usize) -> (b: bool)
    ensures
        b == spec_valid_order(order@, n as int),
{
    if order.len() != n {
        return false;
    }
    let mut seen: Vec<bool> = Vec::new();
    let mut z: usize = 0;
    while z < n
        invariant
            z <= n,
            seen@.len() == z,
            forall|p: int| 0 <= p < z ==> !(#[trigger] seen@[p]),
        decreases n - z,
    {
        seen.push(false);
        z = z + 1;
    }
    let mut k: usize = 0;
    while k < n
        invariant
            k <= n,
            n == order@.len(),
            seen@.len() == n,
            forall|k1: int| 0 <= k1 < k ==> ((#[trigger] order@[k1]) as int) < n,
            forall|p: int|
                0 <= p < n ==> ((#[trigger] seen@[p]) <==> exists|k1: int|
                    0 <= k1 < k && (#[trigger] order@[k1]) == (p as usize)),
            forall|k1: int, k2: int| 0 <= k1 < k2 < k ==> order@[k1] != order@[k2],
        decreases n - k,
    {
        let p = order[k];
        if p >= n {
            return false;
        }
        if seen[p] {
            proof {
                let k1 = choose|k1: int| 0 <= k1 < k && (#[trigger] order@[k1]) == p;
                assert(order@[k1] == order@[k as int]);
            }
            return false;
        }
        seen.set(p, true);
        k = k + 1;
    }
    let mut q: usize = 0;
    while q < n
        invariant
            q <= n,
            n == order@.len(),
            seen@.len() == n,
            forall|k1: int| 0 <= k1 < n ==> ((#[trigger] order@[k1]) as int) < n,
            forall|p: int|
                0 <= p < n ==> ((#[trigger] seen@[p]) <==> exists|k1: int|
                    0 <= k1 < n && (#[trigger] order@[k1]) == (p as usize)),
            forall|k1: int, k2: int| 0 <= k1 < k2 < n ==> order@[k1] != order@[k2],
            forall|p: int| 0 <= p < q ==> #[trigger] order@.contains(p as usize),
        decreases n - q,
    {
        if !seen[q] {
            proof {
                if order@.contains(q as usize) {
                    let i = order@.index_of(q as usize);
                    assert(0 <= i < order@.len() && order@[i] == (q as usize));
                    assert(seen@[q as int]);
                }
            }
            return false;
        }
        proof {
            let k1 = choose|k1: int| 0 <= k1 < n && (#[trigger] order@[k1]) == (q as usize);
            assert(order@.contains(q as usize));
        }
        q = q + 1;
    }
    true
}

/// Build the inverse permutation of `order`.
pub fn invert_order(order: &Vec<usize>, n: usize) -> (inv: Vec<usize>)
    requires
        spec_valid_order(order@, n as int),
    ensures
        inv@ == spec_invert(order@, n as int),
{
    let mut inv: Vec<usize> = Vec::new();
    let mut z: usize = 0;
    while z < n
        invariant
            z <= n,
            inv@.len() == z,
        decreases n - z,
    {
        inv.push(0);
        z = z + 1;
    }
    let mut k: usize = 0;
    while k < n
        invariant
            k <= n,
            n == order@.len(),
            inv@.len() == n,
            spec_valid_order(order@, n as int),
            forall|k1: int| 0 <= k1 < k ==> (inv@[(#[trigger] order@[k1]) as int] as int) == k1,
        decreases n - k,
    {
        let p = order[k];
        inv.set(p, k);
        proof {
            assert forall|k1: int| 0 <= k1 < k + 1 implies (inv@[(#[trigger] order@[k1]) as int]
                as int) == k1 by {
                if k1 < k {
                    assert(order@[k1] != order@[k as int]);
                }
            }
        }
        k = k + 1;
    }
    proof {
        assert forall|p: int| 0 <= p < n implies inv@[p] == spec_invert(order@, n as int)[p] by {
            assert(order@.contains(p as usize));
            let k0 = order@.index_of(p as usize);
            assert(0 <= k0 < order@.len() && order@[k0] == (p as usize));
            assert((inv@[(order@[k0]) as int] as int) == k0);
        }
        assert(inv@ =~= spec_invert(order@, n as int));
    }
    inv
}

/// Reorder `data` in elements of `bs` bytes as `spec_gather` describes.
pub fn apply_gather(data: &[u8], order: &Vec<usize>, bs: usize) -> (out: Vec<u8>)
    requires
        bs >= 1,
        forall|k: int| 0 <= k < order@.len() ==> ((#[trigger] order@[k]) as int) < order@.len(),
        order@.len() * bs <= data@.len(),
    ensures
        out@ == spec_gather(data@, order@, bs as int),
{
    let n = order.len();
    let len = data.len();
    let ghost gspec = spec_gather(data@, order@, bs as int);
    let mut out: Vec<u8> = Vec::new();
    let mut k: usize = 0;
    while k < n
        invariant
            k <= n,
            n == order@.len(),
            len == data@.len(),
            bs >= 1,
            n * bs <= len,
            forall|k1: int| 0 <= k1 < n ==> ((#[trigger] order@[k1]) as int) < n,
            gspec == spec_gather(data@, order@, bs as int),
            out@.len() == k * bs,
            forall|i: int| 0 <= i < out@.len() ==> out@[i] == gspec[i],
        decreases n - k,
    {
        let src = order[k];
        proof {
            assert((k + 1) * bs <= n * bs && k * bs >= 0 && (k + 1) * bs == k * bs + bs && (
            src as int) * bs + bs <= n * bs && (src as int) * bs >= 0) by (nonlinear_arith)
                requires
                    0 <= k < n,
                    0 <= (src as int) < n,
                    bs >= 1,
            ;
        }
        let mut j: usize = 0;
        while j < bs
            invariant
                j <= bs,
                k < n,
                n == order@.len(),
                len == data@.len(),
                bs >= 1,
                n * bs <= len,
                src == order@[k as int],
                (src as int) * bs + bs <= n * bs,
                (k + 1) * bs == k * bs + bs,
                (k + 1) * bs <= n * bs,
                gspec == spec_gather(data@, order@, bs as int),
                out@.len() == k * bs + j,
                forall|i: int| 0 <= i < out@.len() ==> out@[i] == gspec[i],
            decreases bs - j,
        {
            let ghost i = k * bs + j;
            proof {
                lemma_fundamental_div_mod_converse(i as int, bs as int, k as int, j as int);
            }
            out.push(data[src * bs + j]);
            j = j + 1;
        }
        k = k + 1;
    }
    let mut i: usize = n * bs;
    while i < len
        invariant
            n * bs <= i <= len,
            n == order@.len(),
            len == data@.len(),
            gspec == spec_gather(data@, order@, bs as int),
            out@.len() == i,
            forall|i1: int| 0 <= i1 < out@.len() ==> out@[i1] == gspec[i1],
        decreases len - i,
    {
        out.push(data[i]);
        i = i + 1;
    }
    proof {
        assert(out@ =~= gspec);
    }
    out
}

} // verus!
