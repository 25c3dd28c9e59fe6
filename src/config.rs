//! Hyperparameters of one simulation and the ranges they are kept within.
//! The three fractional parameters are fixed-point, in millionths.
use crate::rng::{fair_coin, uniform_below};
use rand::rngs::StdRng;
use vstd::prelude::*;

verus! {

/// The shape of an agent's brain and eye, and the strength of mutation.
#[derive(Clone, Copy, Debug, PartialEq, Eq, Structural)]
pub struct Config {
    pub num_eye_cells: usize,
    /// Hidden layers, not counting the input and output layers.
    pub num_hidden_layers: usize,
    pub hidden_layer_size: usize,
    /// Field-of-view radius, in millionths.
    pub fov_range: usize,
    /// Chance of mutating each gene, in millionths.
    pub mutation_chance: usize,
    /// Magnitude of a mutation, in millionths.
    pub mutation_coef: usize,
}

/// Inclusive bounds `(low, high)` for each mutable field of a `Config`.
#[derive(Clone, Copy, Debug)]
pub struct ConfigRange {
    pub cells_range: (usize, usize),
    pub layers_range: (usize, usize),
    pub size_range: (usize, usize),
    pub range_range: (usize, usize),
    pub chance_range: (usize, usize),
    pub coef_range: (usize, usize),
}

pub open spec fn in_bounds(x: usize, bounds: (usize, usize)) -> bool {
    bounds.0 <= x <= bounds.1
}

impl ConfigRange {
    pub fn new(
        cells_range: (usize, usize),
        layers_range: (usize, usize),
        size_range: (usize, usize),
        range_range: (usize, usize),
        chance_range: (usize, usize),
        coef_range: (usize, usize),
    ) -> (r: ConfigRange)
        ensures
            r == (ConfigRange {
                cells_range,
                layers_range,
                size_range,
                range_range,
                chance_range,
                coef_range,
            }),
    {
        ConfigRange { cells_range, layers_range, size_range, range_range, chance_range, coef_range }
    }

    /// No range is empty.
    pub open spec fn well_formed(&self) -> bool {
        &&& self.cells_range.0 <= self.cells_range.1
        &&& self.layers_range.0 <= self.layers_range.1
        &&& self.size_range.0 <= self.size_range.1
        &&& self.range_range.0 <= self.range_range.1
        &&& self.chance_range.0 <= self.chance_range.1
        &&& self.coef_range.0 <= self.coef_range.1
    }
}

/// `x` scaled by 6/5 (`up`) or by 4/5, rounded down.
pub open spec fn scaled(x: usize, up: bool) -> int {
    if up {
        (x * 6) / 5
    } else {
        (x * 4) / 5
    }
}

/// `v` brought into `bounds`.
pub open spec fn clamped(v: int, bounds: (usize, usize)) -> int {
    if v < bounds.0 {
        bounds.0 as int
    } else if v > bounds.1 {
        bounds.1 as int
    } else {
        v
    }
}

/// `after` is `before` with each field scaled by 6/5 where `up` says so, else
/// by 4/5, and clamped into `range`; `up` holds one flag per field, in
/// declaration order.
pub open spec fn is_perturbation_by(
    before: Config,
    after: Config,
    range: ConfigRange,
    up: Seq<bool>,
) -> bool {
    &&& up.len() == 6
    &&& after.num_eye_cells == clamped(scaled(before.num_eye_cells, up[0]), range.cells_range)
    &&& after.num_hidden_layers == clamped(scaled(before.num_hidden_layers, up[1]), range.layers_range)
    &&& after.hidden_layer_size == clamped(scaled(before.hidden_layer_size, up[2]), range.size_range)
    &&& after.fov_range == clamped(scaled(before.fov_range, up[3]), range.range_range)
    &&& after.mutation_chance == clamped(scaled(before.mutation_chance, up[4]), range.chance_range)
    &&& after.mutation_coef == clamped(scaled(before.mutation_coef, up[5]), range.coef_range)
}

/// `after` is `before` with each field scaled by 6/5 or 4/5, a factor of its
/// own for each field, and clamped into `range`.
pub open spec fn is_perturbation(before: Config, after: Config, range: ConfigRange) -> bool {
    exists|up: Seq<bool>| #[trigger] is_perturbation_by(before, after, range, up)
}

/// `x` scaled by 6/5 or 4/5 and then clamped into `bounds`.
pub fn perturb_value(x: usize, up: bool, bounds: (usize, usize)) -> (r: usize)
    requires
        bounds.0 <= bounds.1,
    ensures
        r == clamped(scaled(x, up), bounds),
        in_bounds(r, bounds),
{
    let wide: u128 = if up {
        (x as u128) * 6 / 5
    } else {
        (x as u128) * 4 / 5
    };
    if wide < bounds.0 as u128 {
        bounds.0
    } else if wide > bounds.1 as u128 {
        bounds.1
    } else {
        wide as usize
    }
}

/// A value drawn uniformly from `bounds`.
fn draw_in(rng: &mut StdRng, bounds: (usize, usize)) -> (r: usize)
    requires
        bounds.0 <= bounds.1,
    ensures
        in_bounds(r, bounds),
{
    let offset = uniform_below(rng, (bounds.1 - bounds.0) as u128 + 1);
    bounds.0 + offset as usize
}

impl Config {
    pub fn new(
        num_eye_cells: usize,
        num_hidden_layers: usize,
        hidden_layer_size: usize,
        fov_range: usize,
        mutation_chance: usize,
        mutation_coef: usize,
    ) -> (r: Config)
        ensures
            r == (Config {
                num_eye_cells,
                num_hidden_layers,
                hidden_layer_size,
                fov_range,
                mutation_chance,
                mutation_coef,
            }),
    {
        Config {
            num_eye_cells,
            num_hidden_layers,
            hidden_layer_size,
            fov_range,
            mutation_chance,
            mutation_coef,
        }
    }

    /// Every field lies within its bounds in `range`.
    pub open spec fn within(&self, range: ConfigRange) -> bool {
        &&& in_bounds(self.num_eye_cells, range.cells_range)
        &&& in_bounds(self.num_hidden_layers, range.layers_range)
        &&& in_bounds(self.hidden_layer_size, range.size_range)
        &&& in_bounds(self.fov_range, range.range_range)
        &&& in_bounds(self.mutation_chance, range.chance_range)
        &&& in_bounds(self.mutation_coef, range.coef_range)
    }

    /// A configuration whose fields are drawn uniformly and independently from `range`.
    pub fn config_range_random(rng: &mut StdRng, range: &ConfigRange) -> (r: Config)
        requires
            range.well_formed(),
        ensures
            r.within(*range),
    {
        let num_eye_cells = draw_in(rng, range.cells_range);
        let num_hidden_layers = draw_in(rng, range.layers_range);
        let hidden_layer_size = draw_in(rng, range.size_range);
        let fov_range = draw_in(rng, range.range_range);
        let mutation_chance = draw_in(rng, range.chance_range);
        let mutation_coef = draw_in(rng, range.coef_range);
        Config {
            num_eye_cells,
            num_hidden_layers,
            hidden_layer_size,
            fov_range,
            mutation_chance,
            mutation_coef,
        }
    }

    /// A configuration drawn from the six given inclusive bounds.
    pub fn random(
        rng: &mut StdRng,
        cells_range: (usize, usize),
        layers_range: (usize, usize),
        size_range: (usize, usize),
        range_range: (usize, usize),
        chance_range: (usize, usize),
        coef_range: (usize, usize),
    ) -> (r: Config)
        requires
            (ConfigRange {
                cells_range,
                layers_range,
                size_range,
                range_range,
                chance_range,
                coef_range,
            }).well_formed(),
        ensures
            r.within(
                ConfigRange {
                    cells_range,
                    layers_range,
                    size_range,
                    range_range,
                    chance_range,
                    coef_range,
                },
            ),
    {
        let range = ConfigRange::new(
            cells_range,
            layers_range,
            size_range,
            range_range,
            chance_range,
            coef_range,
        );
        Config::config_range_random(rng, &range)
    }

    /// The configuration with each field scaled by 6/5 where `up` says so,
    /// else by 4/5, and clamped into `range`. `up` holds one flag per field,
    /// in declaration order: each field has a factor of its own.
    pub fn perturbed_with(&self, range: &ConfigRange, up: &Vec<bool>) -> (r: Config)
        requires
            range.well_formed(),
            up@.len() == 6,
        ensures
            r.num_eye_cells == clamped(scaled(self.num_eye_cells, up@[0]), range.cells_range),
            r.num_hidden_layers == clamped(
                scaled(self.num_hidden_layers, up@[1]),
                range.layers_range,
            ),
            r.hidden_layer_size == clamped(scaled(self.hidden_layer_size, up@[2]), range.size_range),
            r.fov_range == clamped(scaled(self.fov_range, up@[3]), range.range_range),
            r.mutation_chance == clamped(scaled(self.mutation_chance, up@[4]), range.chance_range),
            r.mutation_coef == clamped(scaled(self.mutation_coef, up@[5]), range.coef_range),
            is_perturbation_by(*self, r, *range, up@),
            r.within(*range),
    {
        Config {
            num_eye_cells: perturb_value(self.num_eye_cells, up[0], range.cells_range),
            num_hidden_layers: perturb_value(self.num_hidden_layers, up[1], range.layers_range),
            hidden_layer_size: perturb_value(self.hidden_layer_size, up[2], range.size_range),
            fov_range: perturb_value(self.fov_range, up[3], range.range_range),
            mutation_chance: perturb_value(self.mutation_chance, up[4], range.chance_range),
            mutation_coef: perturb_value(self.mutation_coef, up[5], range.coef_range),
        }
    }

    /// The configuration with each field scaled by 6/5 or 4/5 on a fair coin
    /// of its own, then clamped into `range`.
    pub fn perturbed(&self, rng: &mut StdRng, range: &ConfigRange) -> (r: Config)
        requires
            range.well_formed(),
        ensures
            is_perturbation(*self, r, *range),
            r.within(*range),
    {
        let mut up: Vec<bool> = Vec::new();
        let mut i: usize = 0;
        while i < 6
            invariant
                i <= 6,
                up@.len() == i,
            decreases 6 - i,
        {
            up.push(fair_coin(rng));
            i = i + 1;
        }
        let r = self.perturbed_with(range, &up);
        proof {
            assert(is_perturbation_by(*self, r, *range, up@));
        }
        r
    }
}

} // verus!
