use vstd::prelude::*;

use crate::config::{ManufacturingKind, ManufacturingValue};
use crate::item::{Item, Transput};
use crate::kinds::Error;
use crate::{me_scaled_qty, me_quantity, qty_mul, sat_add64, sat_mul64, vol_add, RATE_DENOM};

verus! {

/// Which side tables a catalog query should fetch.
#[derive(Debug, Clone, Copy, PartialEq, Eq, Structural)]
pub struct DatabaseParamsInclude {
    pub minerals: bool,
    pub installation_minerals: bool,
    pub efficiencies: bool,
    pub security: bool,
}

/// Security bucket of a solar system.
#[derive(Debug, Clone, Copy, PartialEq, Eq, Structural)]
pub enum Security {
    High,
    Low,
    Zero,
}

/// Classifies a security status given in thousandths: at least 0.450 is
/// high security, above zero is low security, the rest is zero security.
pub fn security_class(millis: i32) -> (r: Security)
    ensures
        r == if millis >= 450 {
            Security::High
        } else if millis > 0 {
            Security::Low
        } else {
            Security::Zero
        },
{
    if millis >= 450 {
        Security::High
    } else if millis > 0 {
        Security::Low
    } else {
        Security::Zero
    }
}

/// A trained skill level.
#[derive(Debug, Clone, Copy, PartialEq, Eq, Structural)]
pub enum SkillLevel {
    One,
    Two,
    Three,
    Four,
    Five,
}

impl SkillLevel {
    pub open spec fn spec_value(self) -> u64 {
        match self {
            SkillLevel::One => 1u64,
            SkillLevel::Two => 2u64,
            SkillLevel::Three => 3u64,
            SkillLevel::Four => 4u64,
            SkillLevel::Five => 5u64,
        }
    }

    /// The multiplier this level contributes to a modifier.
    pub fn value(self) -> (r: u64)
        ensures
            r == self.spec_value(),
            1 <= r <= 5,
    {
        match self {
            SkillLevel::One => 1,
            SkillLevel::Two => 2,
            SkillLevel::Three => 3,
            SkillLevel::Four => 4,
            SkillLevel::Five => 5,
        }
    }

    /// Levels run from one to five.
    pub fn from_level(value: u8) -> (r: SkillLevel)
        requires
            1 <= value <= 5,
        ensures
            r.spec_value() == value,
    {
        match value {
            1 => SkillLevel::One,
            2 => SkillLevel::Two,
            3 => SkillLevel::Three,
            4 => SkillLevel::Four,
            _ => SkillLevel::Five,
        }
    }
}

/// The multiplicative factor one modifier contributes: the stated reduction
/// (parts per million) is scaled by the skill level and the security
/// multiplier, and the factor never drops below zero.
pub open spec fn eff_factor(reduction: int, level: int, sec_mult: int) -> int {
    let scaled = reduction * level * sec_mult / RATE_DENOM as int;
    if scaled > RATE_DENOM {
        0
    } else {
        RATE_DENOM - scaled
    }
}

/// One modifier applied to a running efficiency, both in parts per million.
/// A modifier with no stated reduction leaves the efficiency alone.
pub open spec fn eff_apply(e: int, reduction: int, level: int, sec_mult: int) -> int {
    if reduction > 0 {
        e * eff_factor(reduction, level, sec_mult) / RATE_DENOM as int
    } else {
        e
    }
}

/// One modifier applied to a running probability (parts per million).
pub open spec fn prob_apply(prob: int, p_mult: int, level: int) -> int {
    if p_mult > 0 {
        sat_add64(prob, sat_mul64(p_mult, level))
    } else {
        prob
    }
}

/// What one modifier source (a structure type, a rig, a skill) declares:
/// reductions of material, time and cost (parts per million), an additive
/// probability multiplier, and one weight per security bucket.
#[derive(Debug, Clone, Copy, PartialEq, Eq, Structural)]
pub struct Efficiency {
    pub material_efficiency: u64,
    pub time_efficiency: u64,
    pub cost_efficiency: u64,
    pub zero_sec_multiplier: u64,
    pub low_sec_multiplier: u64,
    pub high_sec_multiplier: u64,
    pub probability_multiplier: u64,
}

impl Efficiency {
    /// All declared values stay within a hundredfold of unity, which keeps
    /// every composition step within machine bounds.
    pub open spec fn wf(self) -> bool {
        &&& self.material_efficiency <= 100_000_000
        &&& self.time_efficiency <= 100_000_000
        &&& self.cost_efficiency <= 100_000_000
        &&& self.zero_sec_multiplier <= 100_000_000
        &&& self.low_sec_multiplier <= 100_000_000
        &&& self.high_sec_multiplier <= 100_000_000
    }

    pub fn new(
        time_efficiency: u64,
        material_efficiency: u64,
        cost_efficiency: u64,
        probability_multiplier: u64,
        high_sec_multiplier: u64,
        low_sec_multiplier: u64,
        zero_sec_multiplier: u64,
    ) -> (r: Efficiency)
        ensures
            r == (Efficiency {
                material_efficiency,
                time_efficiency,
                cost_efficiency,
                zero_sec_multiplier,
                low_sec_multiplier,
                high_sec_multiplier,
                probability_multiplier,
            }),
    {
        Efficiency {
            material_efficiency,
            time_efficiency,
            cost_efficiency,
            zero_sec_multiplier,
            low_sec_multiplier,
            high_sec_multiplier,
            probability_multiplier,
        }
    }

    pub open spec fn spec_security_multiplier(self, security: Security) -> u64 {
        match security {
            Security::High => self.high_sec_multiplier,
            Security::Low => self.low_sec_multiplier,
            Security::Zero => self.zero_sec_multiplier,
        }
    }

    fn security_multiplier(&self, security: Security) -> (r: u64)
        ensures
            r == self.spec_security_multiplier(security),
    {
        match security {
            Security::High => self.high_sec_multiplier,
            Security::Low => self.low_sec_multiplier,
            Security::Zero => self.zero_sec_multiplier,
        }
    }

    /// The four running numbers after this modifier is applied at `level`
    /// under `security`.
    pub open spec fn spec_apply(self, state: EffState, level: int, security: Security) -> EffState {
        let sec = self.spec_security_multiplier(security) as int;
        EffState {
            me: eff_apply(state.me as int, self.material_efficiency as int, level, sec) as u64,
            te: eff_apply(state.te as int, self.time_efficiency as int, level, sec) as u64,
            ce: eff_apply(state.ce as int, self.cost_efficiency as int, level, sec) as u64,
            probability: prob_apply(
                state.probability as int,
                self.probability_multiplier as int,
                level,
            ) as u64,
        }
    }

    /// Adds this modifier's probability bonus onto `probability`.
    pub fn add_probability(&self, probability: &mut u64, level: SkillLevel)
        ensures
            *final(probability) == prob_apply(
                *old(probability) as int,
                self.probability_multiplier as int,
                level.spec_value() as int,
            ),
    {
        if self.probability_multiplier > 0 {
            let bonus = qty_mul(self.probability_multiplier, level.value());
            *probability = vol_add(*probability, bonus);
        }
    }

    /// Applies this modifier to the running efficiency state.
    pub fn add_efficiencies(&self, state: &mut EffState, level: SkillLevel, security: Security)
        requires
            self.wf(),
            old(state).wf(),
        ensures
            *final(state) == self.spec_apply(
                *old(state),
                level.spec_value() as int,
                security,
            ),
            final(state).wf(),
    {
        let sec = self.security_multiplier(security);
        let lv = level.value();
        if self.material_efficiency > 0 {
            state.me = apply_one(state.me, self.material_efficiency, lv, sec);
        }
        if self.time_efficiency > 0 {
            state.te = apply_one(state.te, self.time_efficiency, lv, sec);
        }
        if self.cost_efficiency > 0 {
            state.ce = apply_one(state.ce, self.cost_efficiency, lv, sec);
        }
        if self.probability_multiplier > 0 {
            let bonus = qty_mul(self.probability_multiplier, lv);
            state.probability = vol_add(state.probability, bonus);
        }
    }
}

/// The running outcome of efficiency composition: material, time and cost
/// multipliers (parts per million, never above unity) and the success
/// probability (parts per million).
#[derive(Debug, Clone, Copy, PartialEq, Eq, Structural)]
pub struct EffState {
    pub me: u64,
    pub te: u64,
    pub ce: u64,
    pub probability: u64,
}

impl EffState {
    pub open spec fn wf(self) -> bool {
        &&& self.me <= RATE_DENOM
        &&& self.te <= RATE_DENOM
        &&& self.ce <= RATE_DENOM
    }

    /// The starting state: no reduction anywhere, with the catalog's base
    /// probability.
    pub open spec fn spec_fresh(probability: u64) -> EffState {
        EffState { me: RATE_DENOM, te: RATE_DENOM, ce: RATE_DENOM, probability }
    }

    pub fn fresh(probability: u64) -> (r: EffState)
        ensures
            r == EffState::spec_fresh(probability),
            r.wf(),
    {
        EffState { me: RATE_DENOM, te: RATE_DENOM, ce: RATE_DENOM, probability }
    }
}

/// One composition step on a single running number.
fn apply_one(e: u64, reduction: u64, level: u64, sec_mult: u64) -> (r: u64)
    requires
        e <= RATE_DENOM,
        reduction <= 100_000_000,
        level <= 5,
        sec_mult <= 100_000_000,
        reduction > 0,
    ensures
        r == eff_apply(e as int, reduction as int, level as int, sec_mult as int),
        r <= e,
{
    proof {
        assert(reduction as int * level as int <= 500_000_000int) by (nonlinear_arith)
            requires
                0 <= reduction as int <= 100_000_000,
                0 <= level as int <= 5,
        ;
        assert(reduction as int * level as int * sec_mult as int <= 500_000_000int * 100_000_000)
            by (nonlinear_arith)
            requires
                0 <= reduction as int * level as int <= 500_000_000,
                0 <= sec_mult as int <= 100_000_000,
        ;
    }
    let scaled_wide: u128 = reduction as u128 * level as u128 * sec_mult as u128 / (
    RATE_DENOM as u128);
    let factor: u64 = if scaled_wide > RATE_DENOM as u128 {
        0
    } else {
        RATE_DENOM - scaled_wide as u64
    };
    proof {
        assert(factor == eff_factor(reduction as int, level as int, sec_mult as int));
        assert(e as int * factor as int <= RATE_DENOM as int * RATE_DENOM as int)
            by (nonlinear_arith)
            requires
                0 <= e as int <= RATE_DENOM as int,
                0 <= factor as int <= RATE_DENOM as int,
        ;
        assert(e as int * factor as int / (RATE_DENOM as int) <= e as int) by (nonlinear_arith)
            requires
                0 <= e as int,
                0 <= factor as int <= RATE_DENOM as int,
        ;
    }
    (e * factor) / RATE_DENOM
}

/// A catalog row for one (product, blueprint, job kind) query: base values
/// before any modifier, the modifier table, and the system's security
/// status in thousandths.
#[derive(Debug, Clone)]
pub struct DatabaseResponse {
    pub product: Item,
    pub probability: u64,
    pub portion: u64,
    pub duration: u64,
    pub minerals: Vec<(Item, u64)>,
    pub installation_minerals: Vec<(Item, u64)>,
    pub efficiencies: Vec<(u32, Efficiency)>,
    pub security: i32,
}

/// The first modifier declared for `type_id`, if any.
pub open spec fn find_efficiency(effs: Seq<(u32, Efficiency)>, type_id: u32) -> Option<Efficiency>
    decreases effs.len(),
{
    if effs.len() == 0 {
        None
    } else if effs[0].0 == type_id {
        Some(effs[0].1)
    } else {
        find_efficiency(effs.skip(1), type_id)
    }
}

impl DatabaseResponse {
    pub open spec fn wf(self) -> bool {
        forall|i: int| 0 <= i < self.efficiencies@.len() ==> (
        #[trigger] self.efficiencies@[i].1).wf()
    }

    /// The running state after the modifier declared for `type_id` (if any)
    /// is applied.
    pub open spec fn spec_add_efficiencies(
        self,
        type_id: u32,
        state: EffState,
        level: int,
        security: Security,
    ) -> EffState {
        match find_efficiency(self.efficiencies@, type_id) {
            Some(e) => e.spec_apply(state, level, security),
            None => state,
        }
    }

    /// Applies the modifier declared for `type_id`, if there is one.
    pub fn add_efficiencies(
        &self,
        type_id: u32,
        state: &mut EffState,
        level: SkillLevel,
        security: Security,
    )
        requires
            self.wf(),
            old(state).wf(),
        ensures
            *final(state) == self.spec_add_efficiencies(
                type_id,
                *old(state),
                level.spec_value() as int,
                security,
            ),
            final(state).wf(),
    {
        let ghost effs = self.efficiencies@;
        let mut i: usize = 0;
        proof {
            assert(effs.skip(0) =~= effs);
        }
        while i < self.efficiencies.len()
            invariant
                0 <= i <= effs.len(),
                self.efficiencies@ == effs,
                self.wf(),
                old(state).wf(),
                *state == *old(state),
                find_efficiency(effs.skip(i as int), type_id) == find_efficiency(effs, type_id),
            decreases effs.len() - i,
        {
            proof {
                assert(effs.skip(i as int)[0] == effs[i as int]);
            }
            if self.efficiencies[i].0 == type_id {
                let eff = self.efficiencies[i].1;
                eff.add_efficiencies(state, level, security);
                return ;
            }
            proof {
                assert(effs.skip(i as int).skip(1) =~= effs.skip(i as int + 1));
            }
            i = i + 1;
        }
        proof {
            assert(effs.skip(i as int).len() == 0);
        }
    }
}

/// The decryptor table: each entry is the decryptor item (as a blueprint
/// delta: extra runs and shifts of the efficiency levels) with its success
/// probability multiplier in parts per million.
pub open spec fn decryptor_table() -> Seq<(Item, u64)> {
    seq![
        (Item { type_id: 34203u32, runs: 9i16, me: -2i8, te: 2i8 }, 600_000u64),
        (Item { type_id: 34208u32, runs: 7i16, me: 2i8, te: 0i8 }, 900_000u64),
        (Item { type_id: 34205u32, runs: 0i16, me: 3i8, te: 6i8 }, 1_100_000u64),
        (Item { type_id: 34201u32, runs: 1i16, me: 2i8, te: 10i8 }, 1_200_000u64),
        (Item { type_id: 34204u32, runs: 3i16, me: 1i8, te: -2i8 }, 1_500_000u64),
        (Item { type_id: 34202u32, runs: 4i16, me: -1i8, te: 4i8 }, 1_800_000u64),
        (Item { type_id: 34207u32, runs: 2i16, me: 1i8, te: -2i8 }, 1_900_000u64),
    ]
}

/// The decryptor table as a vector.
pub fn decryptors() -> (r: Vec<(Item, u64)>)
    ensures
        r@ == decryptor_table(),
{
    let mut v: Vec<(Item, u64)> = Vec::new();
    v.push((Item { type_id: 34203, runs: 9, me: -2, te: 2 }, 600_000));
    v.push((Item { type_id: 34208, runs: 7, me: 2, te: 0 }, 900_000));
    v.push((Item { type_id: 34205, runs: 0, me: 3, te: 6 }, 1_100_000));
    v.push((Item { type_id: 34201, runs: 1, me: 2, te: 10 }, 1_200_000));
    v.push((Item { type_id: 34204, runs: 3, me: 1, te: -2 }, 1_500_000));
    v.push((Item { type_id: 34202, runs: 4, me: -1, te: 4 }, 1_800_000));
    v.push((Item { type_id: 34207, runs: 2, me: 1, te: -2 }, 1_900_000));
    proof {
        assert(v@ =~= decryptor_table());
    }
    v
}

/// Whether `d` is the decryptor whose delta takes `base` exactly to
/// `product`.
pub open spec fn decryptor_matches(d: Item, base: Item, product: Item, wanted: u32) -> bool {
    &&& d.type_id == wanted
    &&& base.runs + d.runs == product.runs
    &&& base.me + d.me == product.me
    &&& base.te + d.te == product.te
}

/// The first table entry whose delta takes `base` exactly to `product` and
/// whose type is `wanted`, stripped of its blueprint identity.
pub open spec fn matching_decryptor_in(
    table: Seq<(Item, u64)>,
    base: Item,
    product: Item,
    wanted: u32,
) -> Option<(Item, u64)>
    decreases table.len(),
{
    if table.len() == 0 {
        None
    } else if decryptor_matches(table[0].0, base, product, wanted) {
        Some(
            (
                Item { type_id: table[0].0.type_id, runs: 0i16, me: 0i8, te: 0i8 },
                table[0].1,
            ),
        )
    } else {
        matching_decryptor_in(table.skip(1), base, product, wanted)
    }
}

/// Looks the configured decryptor up in the table: it must carry the exact
/// delta between the base blueprint and the configured product.
pub fn find_matching_decryptor(base: Item, product: Item, decryptor_match: u32) -> (r: Option<
    (Item, u64),
>)
    ensures
        r == matching_decryptor_in(decryptor_table(), base, product, decryptor_match),
{
    let table = decryptors();
    let ghost tab = table@;
    let mut i: usize = 0;
    proof {
        assert(tab.skip(0) =~= tab);
    }
    while i < table.len()
        invariant
            0 <= i <= tab.len(),
            table@ == tab,
            tab == decryptor_table(),
            matching_decryptor_in(tab.skip(i as int), base, product, decryptor_match)
                == matching_decryptor_in(tab, base, product, decryptor_match),
        decreases tab.len() - i,
    {
        proof {
            assert(tab.skip(i as int)[0] == tab[i as int]);
        }
        let (decryptor, p_mult) = (table[i].0, table[i].1);
        if decryptor.type_id == decryptor_match && base.runs as i32 + decryptor.runs as i32
            == product.runs as i32 && base.me as i32 + decryptor.me as i32 == product.me as i32
            && base.te as i32 + decryptor.te as i32 == product.te as i32 {
            return Some((decryptor.into_non_blueprint(), p_mult));
        }
        proof {
            assert(tab.skip(i as int).skip(1) =~= tab.skip(i as int + 1));
        }
        i = i + 1;
    }
    proof {
        assert(tab.skip(i as int).len() == 0);
    }
    None
}

/// Base installation-cost weight of a job kind, in parts per million.
pub open spec fn spec_kind_multiplier(kind: ManufacturingKind) -> u64 {
    match kind {
        ManufacturingKind::Manufacturing => 1_000_000u64,
        ManufacturingKind::Invention => 20_000u64,
        ManufacturingKind::Copy => 20_000u64,
        ManufacturingKind::Reaction => 1_000_000u64,
    }
}

pub fn kind_multiplier(kind: ManufacturingKind) -> (r: u64)
    ensures
        r == spec_kind_multiplier(kind),
{
    match kind {
        ManufacturingKind::Manufacturing => 1_000_000,
        ManufacturingKind::Invention => 20_000,
        ManufacturingKind::Copy => 20_000,
        ManufacturingKind::Reaction => 1_000_000,
    }
}

pub const DEFAULT_INVENTION_ME: i8 = 2;
pub const DEFAULT_INVENTION_TE: i8 = 4;

/// The numeric activity key the catalog database uses for a job kind.
pub fn into_database_kind(kind: ManufacturingKind) -> (r: i64)
    ensures
        r == match kind {
            ManufacturingKind::Manufacturing => 1int,
            ManufacturingKind::Invention => 2int,
            ManufacturingKind::Copy => 3int,
            ManufacturingKind::Reaction => 4int,
        },
{
    match kind {
        ManufacturingKind::Manufacturing => 1,
        ManufacturingKind::Invention => 2,
        ManufacturingKind::Copy => 3,
        ManufacturingKind::Reaction => 4,
    }
}

/// The job kind behind a catalog activity key; only the four known keys
/// occur.
pub fn from_database_kind(kind: i64) -> (r: ManufacturingKind)
    requires
        1 <= kind <= 4,
    ensures
        r == if kind == 1 {
            ManufacturingKind::Manufacturing
        } else if kind == 2 {
            ManufacturingKind::Invention
        } else if kind == 3 {
            ManufacturingKind::Copy
        } else {
            ManufacturingKind::Reaction
        },
{
    match kind {
        1 => ManufacturingKind::Manufacturing,
        2 => ManufacturingKind::Invention,
        3 => ManufacturingKind::Copy,
        _ => ManufacturingKind::Reaction,
    }
}

/// One optional modifier source contributes one level-one entry.
pub open spec fn opt_mod(o: Option<u32>) -> Seq<(u32, u8)> {
    match o {
        Some(id) => seq![(id, 1u8)],
        None => Seq::<(u32, u8)>::empty(),
    }
}

/// Every active modifier source of a line, in application order: the
/// structure type, each fitted rig, then each trained skill with its level.
pub open spec fn modifier_sources(
    structure_id: u32,
    r0: Option<u32>,
    r1: Option<u32>,
    r2: Option<u32>,
    skills: Seq<(u32, u8)>,
) -> Seq<(u32, u8)> {
    seq![(structure_id, 1u8)] + opt_mod(r0) + opt_mod(r1) + opt_mod(r2) + skills
}

/// All levels in a modifier list are trained skill levels.
pub open spec fn levels_ok(mods: Seq<(u32, u8)>) -> bool {
    forall|i: int| 0 <= i < mods.len() ==> 1 <= (#[trigger] mods[i]).1 <= 5
}

/// The efficiency state after every modifier in `mods` is applied in order.
pub open spec fn compose_mods(
    rep: DatabaseResponse,
    mods: Seq<(u32, u8)>,
    security: Security,
    state: EffState,
) -> EffState
    decreases mods.len(),
{
    if mods.len() == 0 {
        state
    } else {
        compose_mods(
            rep,
            mods.skip(1),
            security,
            rep.spec_add_efficiencies(mods[0].0, state, mods[0].1 as int, security),
        )
    }
}

/// The security bucket of a status given in thousandths.
pub open spec fn security_bucket(millis: int) -> Security {
    if millis >= 450 {
        Security::High
    } else if millis > 0 {
        Security::Low
    } else {
        Security::Zero
    }
}

/// The blueprint's own research factor in parts per million: each material
/// level takes one percent off, each time level two percent (the caller
/// passes the doubled level); never below zero.
pub open spec fn bp_factor(level: int) -> int {
    if 1_000_000 - level * 10_000 < 0 {
        0
    } else {
        1_000_000 - level * 10_000
    }
}

/// A composed efficiency adjusted by the blueprint's own research, which
/// applies to manufacturing only.
pub open spec fn blueprint_adjusted(e: int, level: int, kind: ManufacturingKind) -> int {
    if kind == ManufacturingKind::Manufacturing {
        crate::sat_scale64(e, bp_factor(level))
    } else {
        e
    }
}

fn bp_factor_exec(level: i8) -> (r: u64)
    ensures
        r == bp_factor(level as int),
{
    let v: i64 = 1_000_000i64 - (level as i64) * 10_000;
    if v < 0 {
        0
    } else {
        v as u64
    }
}

/// A catalog row projected onto one line over the whole horizon: the bill
/// of materials, output portion, duration and run count for `runs` runs,
/// and the installation-cost multiplier.
#[derive(Debug, Clone)]
pub struct Line {
    /// Minerals that enter the installation-cost estimate, for all runs.
    pub installation_minerals: Vec<(Item, u64)>,
    /// Minerals consumed by all runs.
    pub minerals: Vec<(Item, u64)>,
    /// Items produced by all runs.
    pub portion: u64,
    /// Seconds needed for all runs.
    pub duration: u64,
    /// Number of runs.
    pub runs: u64,
    /// Job-kind base times cost efficiency times one-plus-tax, in parts per
    /// million.
    pub cost_multiplier: u64,
}

impl Line {
    pub fn database_params_include() -> (r: DatabaseParamsInclude)
        ensures
            r == (DatabaseParamsInclude {
                minerals: true,
                installation_minerals: true,
                efficiencies: true,
                security: true,
            }),
    {
        DatabaseParamsInclude {
            minerals: true,
            installation_minerals: true,
            efficiencies: true,
            security: true,
        }
    }

    /// Projects one catalog row onto a line: composes all efficiency
    /// modifiers, fits as many runs as the horizon (or the copy's run
    /// count) allows, scales the bill of materials with the one-off rule,
    /// and handles the invention decryptor and the copy special case.
    /// A copy that cannot fit more runs than it has left is unsupported;
    /// a configured decryptor that does not take the base blueprint
    /// exactly to the configured product is a configuration error.
    pub fn from_rep(
        db_rep: DatabaseResponse,
        structure_id: u32,
        rigs: [Option<u32>; 3],
        tax: ManufacturingValue,
        skills: &Vec<(u32, u8)>,
        kind: ManufacturingKind,
        transput: Transput,
        max_duration: u64,
        decryptor: Option<u32>,
    ) -> (r: Result<Line, Error>)
        requires
            db_rep.wf(),
            forall|i: int| 0 <= i < skills@.len() ==> 1 <= (#[trigger] skills@[i]).1 <= 5,
            kind == ManufacturingKind::Copy ==> transput.product.runs >= 0,
        ensures
            ({
                let st = compose_mods(
                    db_rep,
                    modifier_sources(structure_id, rigs@[0], rigs@[1], rigs@[2], skills@),
                    security_bucket(db_rep.security as int),
                    EffState::spec_fresh(db_rep.probability),
                );
                let me_f = blueprint_adjusted(st.me as int, transput.blueprint.me as int, kind);
                let te_f = blueprint_adjusted(st.te as int, transput.blueprint.te as int, kind);
                let run_once = crate::sat_scale64(db_rep.duration as int, te_f);
                let max0: int = if run_once == 0 {
                    u64::MAX as int
                } else {
                    max_duration as int / run_once
                };
                let cap: Option<u64> = match kind {
                    ManufacturingKind::Copy => Some(transput.product.runs as u64),
                    ManufacturingKind::Manufacturing => if transput.blueprint.runs > 0 {
                        Some(transput.blueprint.runs as u64)
                    } else {
                        None::<u64>
                    },
                    _ => None::<u64>,
                };
                let cap_err = match cap {
                    Some(c) => !(max0 > c),
                    None => false,
                };
                let found = matching_decryptor_in(
                    decryptor_table(),
                    db_rep.product,
                    transput.product,
                    decryptor.unwrap(),
                );
                let inv_err = kind == ManufacturingKind::Invention && decryptor is Some && (
                db_rep.product == transput.product || found is None);
                let runs0: int = match cap {
                    Some(c) => c as int,
                    None => max0,
                };
                match r {
                    Result::Err(e) => {
                        &&& cap_err || inv_err
                        &&& (cap_err ==> e is Unimplemented)
                        &&& (!cap_err ==> e is ConfigInvalid)
                    },
                    Result::Ok(line) => {
                        let base = db_rep.minerals@.len() as int;
                        let nbpc: int = if transput.blueprint.runs > 0 {
                            1
                        } else {
                            0
                        };
                        let ndec: int = if kind == ManufacturingKind::Invention
                            && decryptor is Some {
                            1
                        } else {
                            0
                        };
                        let prob_f: int = if kind == ManufacturingKind::Invention
                            && decryptor is Some {
                            crate::sat_scale64(st.probability as int, found.unwrap().1 as int)
                        } else {
                            st.probability as int
                        };
                        let p0 = crate::sat_mul64(db_rep.portion as int, runs0);
                        &&& !cap_err && !inv_err
                        &&& line.runs == if kind == ManufacturingKind::Copy {
                            1int
                        } else {
                            runs0
                        }
                        &&& line.duration == crate::sat_mul64(run_once, runs0)
                        &&& line.cost_multiplier == crate::sat_scale64(
                            crate::sat_scale64(spec_kind_multiplier(kind) as int, st.ce as int),
                            crate::sat_add64(1_000_000, tax.spec_kind_value(kind) as int),
                        )
                        &&& line.portion == if kind == ManufacturingKind::Copy {
                            1int
                        } else if kind == ManufacturingKind::Invention {
                            crate::sat_scale64(p0, prob_f)
                        } else {
                            p0
                        }
                        &&& line.minerals@.len() == base + nbpc + ndec
                        &&& forall|j: int| 0 <= j < base ==> #[trigger] line.minerals@[j] == (
                        db_rep.minerals@[j].0, crate::me_scaled_qty(
                            db_rep.minerals@[j].1 as int,
                            runs0,
                            me_f,
                        ) as u64)
                        &&& nbpc == 1 ==> line.minerals@[base] == (transput.blueprint, 1u64)
                        &&& ndec == 1 ==> line.minerals@[base + nbpc] == (
                        found.unwrap().0, runs0 as u64)
                        &&& line.installation_minerals@.len()
                            == db_rep.installation_minerals@.len()
                        &&& forall|j: int| 0 <= j < db_rep.installation_minerals@.len()
                            ==> #[trigger] line.installation_minerals@[j] == (
                        db_rep.installation_minerals@[j].0, crate::sat_mul64(
                            db_rep.installation_minerals@[j].1 as int,
                            runs0,
                        ) as u64)
                    },
                }
            }),
    {
        let security = security_class(db_rep.security);
        let num_runs: Option<u64> = match kind {
            ManufacturingKind::Copy => Some(transput.product.runs as u64),
            ManufacturingKind::Manufacturing => {
                if transput.blueprint.runs > 0 {
                    Some(transput.blueprint.runs as u64)
                } else {
                    None
                }
            },
            _ => None,
        };

        // gather the modifier sources: structure, rigs, skills
        let mut mods: Vec<(u32, u8)> = Vec::new();
        mods.push((structure_id, 1u8));
        if let Some(r0) = rigs[0] {
            mods.push((r0, 1u8));
        }
        if let Some(r1) = rigs[1] {
            mods.push((r1, 1u8));
        }
        if let Some(r2) = rigs[2] {
            mods.push((r2, 1u8));
        }
        proof {
            assert(mods@ =~= seq![(structure_id, 1u8)] + opt_mod(rigs@[0]) + opt_mod(rigs@[1])
                + opt_mod(rigs@[2]));
        }
        let ghost head = mods@;
        let mut k: usize = 0;
        while k < skills.len()
            invariant
                0 <= k <= skills@.len(),
                mods@ == head + skills@.take(k as int),
                forall|i: int| 0 <= i < skills@.len() ==> 1 <= (#[trigger] skills@[i]).1 <= 5,
            decreases skills@.len() - k,
        {
            let entry = (skills[k].0, skills[k].1);
            mods.push(entry);
            proof {
                assert(head + skills@.take(k as int + 1) =~= (head + skills@.take(k as int)).push(
                    entry,
                ));
            }
            k = k + 1;
        }
        proof {
            assert(skills@.take(skills@.len() as int) =~= skills@);
            assert(mods@ == modifier_sources(structure_id, rigs@[0], rigs@[1], rigs@[2], skills@));
            assert(levels_ok(mods@)) by {
                assert forall|i: int| 0 <= i < mods@.len() implies 1 <= (#[trigger] mods@[i]).1
                    <= 5 by {
                    if i >= head.len() {
                        assert(mods@[i] == skills@[i - head.len()]);
                    } else {
                        assert(head[i].1 == 1);
                    }
                }
            }
        }

        // compose every modifier onto the fresh state
        let ghost all_mods = mods@;
        let mut state = EffState::fresh(db_rep.probability);
        let ghost state0 = state;
        let mut j: usize = 0;
        proof {
            assert(all_mods.skip(0) =~= all_mods);
        }
        while j < mods.len()
            invariant
                0 <= j <= all_mods.len(),
                mods@ == all_mods,
                levels_ok(all_mods),
                db_rep.wf(),
                state.wf(),
                compose_mods(db_rep, all_mods.skip(j as int), security, state) == compose_mods(
                    db_rep,
                    all_mods,
                    security,
                    state0,
                ),
            decreases all_mods.len() - j,
        {
            proof {
                assert(all_mods.skip(j as int)[0] == all_mods[j as int]);
                assert(all_mods.skip(j as int).skip(1) =~= all_mods.skip(j as int + 1));
            }
            let level = SkillLevel::from_level(mods[j].1);
            db_rep.add_efficiencies(mods[j].0, &mut state, level, security);
            j = j + 1;
        }
        proof {
            assert(all_mods.skip(j as int).len() == 0);
        }

        // the blueprint's own research levels
        let me_f: u64 = match kind {
            ManufacturingKind::Manufacturing => crate::scale_ppm(
                state.me,
                bp_factor_exec(transput.blueprint.me),
            ),
            _ => state.me,
        };
        let te_f: u64 = match kind {
            ManufacturingKind::Manufacturing => crate::scale_ppm(
                state.te,
                bp_factor_exec(transput.blueprint.te),
            ),
            _ => state.te,
        };
        proof {
            assert(state.me as int * bp_factor(transput.blueprint.me as int) / 1_000_000
                <= 2_280_000) by (nonlinear_arith)
                requires
                    0 <= state.me <= 1_000_000,
                    0 <= bp_factor(transput.blueprint.me as int) <= 2_280_000,
            ;
        }

        let run_once: u64 = crate::scale_ppm(db_rep.duration, te_f);
        let mut max_runs: u64 = if run_once == 0 {
            u64::MAX
        } else {
            max_duration / run_once
        };
        if let Some(cap) = num_runs {
            if max_runs > cap {
                max_runs = cap;
            } else {
                return Err(Error::Unimplemented);
            }
        }

        // the bill of materials for all runs
        let mut minerals: Vec<(Item, u64)> = Vec::new();
        let mut m: usize = 0;
        while m < db_rep.minerals.len()
            invariant
                0 <= m <= db_rep.minerals@.len(),
                me_f <= 2_280_000,
                minerals@.len() == m,
                forall|j: int| 0 <= j < m ==> #[trigger] minerals@[j] == (
                db_rep.minerals@[j].0, crate::me_scaled_qty(
                    db_rep.minerals@[j].1 as int,
                    max_runs as int,
                    me_f as int,
                ) as u64),
            decreases db_rep.minerals@.len() - m,
        {
            let (mineral, quantity) = (db_rep.minerals[m].0, db_rep.minerals[m].1);
            minerals.push((mineral, crate::me_quantity(quantity, max_runs, me_f)));
            m = m + 1;
        }
        let mut installation_minerals: Vec<(Item, u64)> = Vec::new();
        let mut m: usize = 0;
        while m < db_rep.installation_minerals.len()
            invariant
                0 <= m <= db_rep.installation_minerals@.len(),
                installation_minerals@.len() == m,
                forall|j: int| 0 <= j < m ==> #[trigger] installation_minerals@[j] == (
                db_rep.installation_minerals@[j].0, crate::sat_mul64(
                    db_rep.installation_minerals@[j].1 as int,
                    max_runs as int,
                ) as u64),
            decreases db_rep.installation_minerals@.len() - m,
        {
            let (mineral, quantity) = (
                db_rep.installation_minerals[m].0,
                db_rep.installation_minerals[m].1,
            );
            installation_minerals.push((mineral, crate::qty_mul(quantity, max_runs)));
            m = m + 1;
        }
        if transput.blueprint.runs > 0 {
            // a consumable copy is itself a material of the job
            minerals.push((transput.blueprint, 1u64));
        }

        let mut portion: u64 = crate::qty_mul(db_rep.portion, max_runs);
        let duration: u64 = crate::qty_mul(run_once, max_runs);
        let mut runs: u64 = max_runs;
        let cm0: u64 = crate::scale_ppm(kind_multiplier(kind), state.ce);
        let cost_multiplier: u64 = crate::scale_ppm(
            cm0,
            crate::vol_add(1_000_000u64, tax.kind_value(kind)),
        );

        match kind {
            ManufacturingKind::Invention => {
                let mut probability: u64 = state.probability;
                if let Some(wanted) = decryptor {
                    if db_rep.product == transput.product {
                        // the configured product must differ from the base
                        return Err(Error::ConfigInvalid);
                    }
                    match find_matching_decryptor(db_rep.product, transput.product, wanted) {
                        Some((decryptor_item, p_mult)) => {
                            minerals.push((decryptor_item, max_runs));
                            probability = crate::scale_ppm(probability, p_mult);
                        },
                        None => {
                            return Err(Error::ConfigInvalid);
                        },
                    }
                }
                portion = crate::scale_ppm(portion, probability);
            },
            ManufacturingKind::Copy => {
                portion = 1;
                runs = 1;
            },
            _ => {},
        }

        Ok(
            Line {
                installation_minerals,
                minerals,
                portion,
                duration,
                runs,
                cost_multiplier,
            },
        )
    }
}

} // verus!
