use vstd::prelude::*;

verus! {

/// Identifies a kind of item in the static catalog.
#[derive(Clone, Copy, Debug, Eq, Hash, PartialEq, Structural)]
pub struct TypeId(pub u32);

/// Identifies a physical facility or station.
#[derive(Clone, Copy, Debug, Eq, Hash, PartialEq, Structural)]
pub struct LocationId(pub u64);

/// Identifies a solar-system grouping of locations.
#[derive(Clone, Copy, Debug, Eq, Hash, PartialEq, Structural)]
pub struct SystemId(pub u32);

#[derive(Clone, Copy, Debug, Eq, Hash, PartialEq, Structural)]
pub struct DeliveryRouteId(pub u32);

#[derive(Clone, Copy, Debug, Eq, Hash, PartialEq, Structural)]
pub struct DeliveryPipeId(pub u32);

#[derive(Clone, Copy, Debug, Eq, Hash, PartialEq, Structural)]
pub struct ProductionLineId(pub u32);

/// A blueprint is either a reusable original or a consumable copy with a
/// finite run count.
#[derive(Clone, Copy, Debug, Eq, PartialEq, Structural)]
pub enum BlueprintKind {
    BPO,
    BPC,
}

/// The three pools of industry slots.
#[derive(Clone, Copy, Debug, Eq, PartialEq, Structural)]
pub enum SlotKind {
    Manufacturing,
    Reaction,
    Science,
}

/// The four kinds of industry job.
#[derive(Clone, Copy, Debug, Eq, Hash, PartialEq, Structural)]
pub enum JobKind {
    Manufacturing,
    Copying,
    Invention,
    Reaction,
}

impl JobKind {
    /// Base multiplier on a job's installation cost, in parts per million.
    pub fn installation_cost_multiplier(&self) -> (r: u64)
        ensures
            r == match *self {
                JobKind::Manufacturing => 1_000_000u64,
                JobKind::Copying => 20_000u64,
                JobKind::Invention => 20_000u64,
                JobKind::Reaction => 1_000_000u64,
            },
    {
        match self {
            JobKind::Manufacturing => 1_000_000,
            JobKind::Copying => 20_000,
            JobKind::Invention => 20_000,
            JobKind::Reaction => 1_000_000,
        }
    }
}

/// Blueprint material-efficiency level: each level shaves one percent off
/// material quantities of a manufacturing job.
#[derive(Clone, Copy, Debug, Eq, Hash, PartialEq, Structural)]
pub enum MaterialEfficiency {
    ME00,
    ME01,
    ME02,
    ME03,
    ME04,
    ME05,
    ME06,
    ME07,
    ME08,
    ME09,
    ME10,
}

impl MaterialEfficiency {
    pub open spec fn level(self) -> int {
        match self {
            MaterialEfficiency::ME00 => 0,
            MaterialEfficiency::ME01 => 1,
            MaterialEfficiency::ME02 => 2,
            MaterialEfficiency::ME03 => 3,
            MaterialEfficiency::ME04 => 4,
            MaterialEfficiency::ME05 => 5,
            MaterialEfficiency::ME06 => 6,
            MaterialEfficiency::ME07 => 7,
            MaterialEfficiency::ME08 => 8,
            MaterialEfficiency::ME09 => 9,
            MaterialEfficiency::ME10 => 10,
        }
    }

    /// Material multiplier of this blueprint level, in parts per million.
    /// Only manufacturing jobs are affected.
    pub fn blueprint_me(&self, job_kind: JobKind) -> (r: u64)
        ensures
            job_kind == JobKind::Manufacturing ==> r == 1_000_000 - 10_000 * self.level(),
            job_kind != JobKind::Manufacturing ==> r == 1_000_000u64,
    {
        match job_kind {
            JobKind::Manufacturing => match self {
                MaterialEfficiency::ME00 => 1_000_000,
                MaterialEfficiency::ME01 => 990_000,
                MaterialEfficiency::ME02 => 980_000,
                MaterialEfficiency::ME03 => 970_000,
                MaterialEfficiency::ME04 => 960_000,
                MaterialEfficiency::ME05 => 950_000,
                MaterialEfficiency::ME06 => 940_000,
                MaterialEfficiency::ME07 => 930_000,
                MaterialEfficiency::ME08 => 920_000,
                MaterialEfficiency::ME09 => 910_000,
                MaterialEfficiency::ME10 => 900_000,
            },
            _ => 1_000_000,
        }
    }
}

/// Blueprint time-efficiency level: each level shaves two percent off the
/// duration of a manufacturing job.
#[derive(Clone, Copy, Debug, Eq, Hash, PartialEq, Structural)]
pub enum TimeEfficiency {
    TE00,
    TE01,
    TE02,
    TE03,
    TE04,
    TE05,
    TE06,
    TE07,
    TE08,
    TE09,
    TE10,
}

impl TimeEfficiency {
    pub open spec fn level(self) -> int {
        match self {
            TimeEfficiency::TE00 => 0,
            TimeEfficiency::TE01 => 1,
            TimeEfficiency::TE02 => 2,
            TimeEfficiency::TE03 => 3,
            TimeEfficiency::TE04 => 4,
            TimeEfficiency::TE05 => 5,
            TimeEfficiency::TE06 => 6,
            TimeEfficiency::TE07 => 7,
            TimeEfficiency::TE08 => 8,
            TimeEfficiency::TE09 => 9,
            TimeEfficiency::TE10 => 10,
        }
    }

    /// Time multiplier of this blueprint level, in parts per million.
    /// Only manufacturing jobs are affected.
    pub fn blueprint_te(&self, job_kind: JobKind) -> (r: u64)
        ensures
            job_kind == JobKind::Manufacturing ==> r == 1_000_000 - 20_000 * self.level(),
            job_kind != JobKind::Manufacturing ==> r == 1_000_000u64,
    {
        match job_kind {
            JobKind::Manufacturing => match self {
                TimeEfficiency::TE00 => 1_000_000,
                TimeEfficiency::TE01 => 980_000,
                TimeEfficiency::TE02 => 960_000,
                TimeEfficiency::TE03 => 940_000,
                TimeEfficiency::TE04 => 920_000,
                TimeEfficiency::TE05 => 900_000,
                TimeEfficiency::TE06 => 880_000,
                TimeEfficiency::TE07 => 860_000,
                TimeEfficiency::TE08 => 840_000,
                TimeEfficiency::TE09 => 820_000,
                TimeEfficiency::TE10 => 800_000,
            },
            _ => 1_000_000,
        }
    }
}

/// A bundle of slot counts, one per slot pool.
#[derive(Clone, Debug, Eq, Hash, PartialEq, Structural)]
pub struct SlotCount {
    pub manufacture: u32,
    pub reaction: u32,
    pub science: u32,
}

impl SlotCount {
    pub fn new() -> (r: SlotCount)
        ensures
            r.manufacture == 0 && r.reaction == 0 && r.science == 0,
    {
        SlotCount { manufacture: 0, reaction: 0, science: 0 }
    }

    /// True when every pool of `self` holds at least as many slots as the
    /// same pool of `other`.
    pub fn can_fit(&self, other: &SlotCount) -> (r: bool)
        ensures
            r == (self.manufacture >= other.manufacture && self.reaction >= other.reaction
                && self.science >= other.science),
    {
        self.manufacture >= other.manufacture && self.reaction >= other.reaction
            && self.science >= other.science
    }

    pub open spec fn pool(self, job: JobKind) -> u32 {
        match job {
            JobKind::Manufacturing => self.manufacture,
            JobKind::Copying => self.science,
            JobKind::Invention => self.science,
            JobKind::Reaction => self.reaction,
        }
    }

    /// Takes one slot out of the pool that `job` draws from.
    pub fn reserve(&mut self, job: JobKind)
        requires
            old(self).pool(job) >= 1,
        ensures
            final(self).manufacture == if job == JobKind::Manufacturing {
                old(self).manufacture - 1
            } else {
                old(self).manufacture as int
            },
            final(self).reaction == if job == JobKind::Reaction {
                old(self).reaction - 1
            } else {
                old(self).reaction as int
            },
            final(self).science == if job == JobKind::Copying || job == JobKind::Invention {
                old(self).science - 1
            } else {
                old(self).science as int
            },
    {
        match job {
            JobKind::Manufacturing => self.manufacture = self.manufacture - 1,
            JobKind::Copying => self.science = self.science - 1,
            JobKind::Invention => self.science = self.science - 1,
            JobKind::Reaction => self.reaction = self.reaction - 1,
        }
    }

    /// Puts one slot into the pool that `slot` draws from.
    pub fn add(&mut self, slot: JobKind)
        requires
            old(self).pool(slot) < u32::MAX,
        ensures
            final(self).manufacture == if slot == JobKind::Manufacturing {
                old(self).manufacture + 1
            } else {
                old(self).manufacture as int
            },
            final(self).reaction == if slot == JobKind::Reaction {
                old(self).reaction + 1
            } else {
                old(self).reaction as int
            },
            final(self).science == if slot == JobKind::Copying || slot == JobKind::Invention {
                old(self).science + 1
            } else {
                old(self).science as int
            },
    {
        match slot {
            JobKind::Manufacturing => self.manufacture = self.manufacture + 1,
            JobKind::Copying => self.science = self.science + 1,
            JobKind::Invention => self.science = self.science + 1,
            JobKind::Reaction => self.reaction = self.reaction + 1,
        }
    }
}

/// A trained skill: which skill, and at what level.
#[derive(Clone, Copy, Debug, Eq, PartialEq, Structural)]
pub struct Skill {
    pub kind: TypeId,
    pub level: u8,
}

/// A rig fitted to a structure.
#[derive(Clone, Copy, Debug, Eq, PartialEq, Structural)]
pub struct Rig(pub TypeId);

/// Security class of a solar system.
#[derive(Clone, Copy, Debug, Eq, PartialEq, Structural)]
pub enum Security {
    High,
    Low,
    Null,
}

/// The facility a production line runs in: a player structure of some type,
/// or a public station.
#[derive(Clone, Copy, Debug, Eq, PartialEq, Structural)]
pub enum Structure {
    Structure(TypeId),
    Station,
}

/// Rigs fitted to a production facility: up to three.
#[derive(Clone, Copy, Debug, Eq, PartialEq, Structural)]
pub enum Rigs {
    Zero,
    One(TypeId),
    Two(TypeId, TypeId),
    Three(TypeId, TypeId, TypeId),
}

/// How a line's blueprint is provided: an original held at some efficiency
/// level, or copies produced by another line.
#[derive(Clone, Copy, Debug, Eq, PartialEq, Structural)]
pub enum ProductionLineBlueprint {
    BPO { me: MaterialEfficiency, te: TimeEfficiency },
    BPC { production_line: usize },
}

/// A failure while assembling the plan.
#[derive(Debug, Clone)]
pub enum Error {
    /// The catalog could not serve a required row; carries its diagnostic.
    IndustryDbError(String),
    /// The configuration asks for something the planner does not support,
    /// such as a decryptor that does not match the configured product or a
    /// blueprint copy whose single sequence does not fit the horizon.
    Unimplemented,
    /// An input snapshot broke its documented shape, such as an order book
    /// that is not sorted cheapest-first.
    InputParse,
    /// A required catalog row, price or cost index is absent.
    CatalogMiss,
    /// The configuration is inconsistent: an identifier resolves to
    /// nothing, a material has neither a providing line nor a market
    /// source, a pipe is empty or detached, or the sub-line graph has a
    /// cycle.
    ConfigInvalid,
}

/// Committed job counts per production line.
#[derive(Debug, Clone)]
pub struct Builds {
    pub counts: Vec<(ProductionLineId, u32)>,
}

/// The count recorded for one line: its first entry, or zero.
pub open spec fn lookup_build_count(s: Seq<(ProductionLineId, u32)>, line: ProductionLineId) -> int
    decreases s.len(),
{
    if s.len() == 0 {
        0
    } else if s[0].0 == line {
        s[0].1 as int
    } else {
        lookup_build_count(s.skip(1), line)
    }
}

impl Builds {
    pub fn new() -> (r: Builds)
        ensures
            r.counts@.len() == 0,
    {
        Builds { counts: Vec::new() }
    }

    pub fn get(&self, production_line_id: ProductionLineId) -> (r: u32)
        ensures
            r == lookup_build_count(self.counts@, production_line_id),
    {
        let ghost s = self.counts@;
        proof {
            assert(s.skip(0) =~= s);
        }
        let mut i: usize = 0;
        while i < self.counts.len()
            invariant
                0 <= i <= s.len(),
                self.counts@ == s,
                lookup_build_count(s.skip(i as int), production_line_id) == lookup_build_count(
                    s,
                    production_line_id,
                ),
            decreases s.len() - i,
        {
            proof {
                assert(s.skip(i as int)[0] == s[i as int]);
            }
            if self.counts[i].0 == production_line_id {
                return self.counts[i].1;
            }
            proof {
                assert(s.skip(i as int).skip(1) =~= s.skip(i as int + 1));
            }
            i = i + 1;
        }
        proof {
            assert(s.skip(i as int).len() == 0);
        }
        0
    }

    /// Counts one more committed job for the line; every other line's
    /// count is untouched.
    pub fn add(&mut self, production_line_id: ProductionLineId)
        requires
            lookup_build_count(old(self).counts@, production_line_id) < u32::MAX,
        ensures
            lookup_build_count(final(self).counts@, production_line_id) == lookup_build_count(
                old(self).counts@,
                production_line_id,
            ) + 1,
            forall|other: ProductionLineId| other != production_line_id ==> lookup_build_count(
                final(self).counts@,
                other,
            ) == lookup_build_count(old(self).counts@, other),
    {
        let ghost s = self.counts@;
        proof {
            assert(s.skip(0) =~= s);
        }
        let mut i: usize = 0;
        while i < self.counts.len()
            invariant
                0 <= i <= s.len(),
                self.counts@ == s,
                old(self).counts@ == s,
                lookup_build_count(s.skip(i as int), production_line_id) == lookup_build_count(
                    s,
                    production_line_id,
                ),
                lookup_build_count(s, production_line_id) < u32::MAX,
                forall|j: int| 0 <= j < i ==> (#[trigger] s[j]).0 != production_line_id,
            decreases s.len() - i,
        {
            proof {
                assert(s.skip(i as int)[0] == s[i as int]);
            }
            if self.counts[i].0 == production_line_id {
                let updated = self.counts[i].1 + 1;
                self.counts.set(i, (production_line_id, updated));
                proof {
                    assert forall|probe: ProductionLineId| #[trigger] lookup_build_count(
                        s.update(i as int, (production_line_id, updated)),
                        probe,
                    ) == if probe == production_line_id {
                        updated as int
                    } else {
                        lookup_build_count(s, probe)
                    } by {
                        lemma_build_count_update(s, i as int, production_line_id, updated, probe);
                    }
                }
                return ;
            }
            proof {
                assert(s.skip(i as int).skip(1) =~= s.skip(i as int + 1));
            }
            i = i + 1;
        }
        proof {
            assert(s.skip(i as int).len() == 0);
        }
        self.counts.push((production_line_id, 1));
        proof {
            assert forall|probe: ProductionLineId| #[trigger] lookup_build_count(
                s.push((production_line_id, 1u32)),
                probe,
            ) == if probe == production_line_id {
                1int
            } else {
                lookup_build_count(s, probe)
            } by {
                lemma_build_count_push(s, production_line_id, 1, probe);
            }
        }
    }
}

proof fn lemma_build_count_update(
    s: Seq<(ProductionLineId, u32)>,
    i: int,
    line: ProductionLineId,
    value: u32,
    probe: ProductionLineId,
)
    requires
        0 <= i < s.len(),
        s[i].0 == line,
        forall|j: int| 0 <= j < i ==> (#[trigger] s[j]).0 != line,
    ensures
        lookup_build_count(s.update(i, (line, value)), probe) == if probe == line {
            value as int
        } else {
            lookup_build_count(s, probe)
        },
    decreases s.len(),
{
    let t = s.update(i, (line, value));
    if i == 0 {
        assert(t[0] == (line, value));
        if probe != line {
            assert(t.skip(1) =~= s.skip(1));
        }
    } else {
        assert(t[0] == s[0]);
        assert(s[0].0 != line);
        assert(t.skip(1) =~= s.skip(1).update(i - 1, (line, value)));
        assert forall|j: int| 0 <= j < i - 1 implies (#[trigger] s.skip(1)[j]).0 != line by {
            assert(s.skip(1)[j] == s[j + 1]);
        }
        assert(s.skip(1)[i - 1] == s[i]);
        lemma_build_count_update(s.skip(1), i - 1, line, value, probe);
    }
}

proof fn lemma_build_count_push(
    s: Seq<(ProductionLineId, u32)>,
    line: ProductionLineId,
    value: u32,
    probe: ProductionLineId,
)
    requires
        forall|j: int| 0 <= j < s.len() ==> (#[trigger] s[j]).0 != line,
    ensures
        lookup_build_count(s.push((line, value)), probe) == if probe == line {
            value as int
        } else {
            lookup_build_count(s, probe)
        },
    decreases s.len(),
{
    let t = s.push((line, value));
    if s.len() == 0 {
        assert(t[0] == (line, value));
        assert(t.skip(1) =~= Seq::<(ProductionLineId, u32)>::empty());
        assert(lookup_build_count(Seq::<(ProductionLineId, u32)>::empty(), probe) == 0);
    } else {
        assert(t[0] == s[0]);
        assert(t.skip(1) =~= s.skip(1).push((line, value)));
        assert forall|j: int| 0 <= j < s.skip(1).len() implies (#[trigger] s.skip(1)[j]).0
            != line by {
            assert(s.skip(1)[j] == s[j + 1]);
        }
        lemma_build_count_push(s.skip(1), line, value, probe);
    }
}

} // verus!
