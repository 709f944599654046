//! The integer core of a stochastic path tracer: the median split and axis
//! choice of its bounding volume hierarchy, a total order on f64 bit patterns
//! and the ranges compared through it,
//! the shuffled lattice tables behind Perlin noise, texel lookup for image
//! textures, checker cell parity, and the texture-holding materials.

mod bvh;
mod interval;
mod material;
mod perlin;
mod texture;

pub use bvh::{
    is_index_order, lemma_order_key_orders, longest_axis, order_key, order_key_of,
    sorted_between, sorted_by_key, split, stable_between, stable_by_key, total_order_lt, Split,
    SIGN_BIT,
};
pub use interval::{
    bits_of_key, float_eq, float_lt, is_nan_bits, is_zero_bits, lemma_merge_covers_and_is_smallest,
    lemma_value_key_compares, value_key, value_key_of, KeyInterval,
};
pub use material::{DiffuseLight, Lambertian};
pub use perlin::{
    apply_swaps, generate_perm, is_permutation, is_pow2, moves_every_entry, permute, swap_slots,
    swapped, swaps_below, targets_below, Lattice,
};
pub use texture::{checker_is_even, image_rows, rows_of, texel_of, Image};
