//! Decal classification: lifetime class, eviction priority and weather
//! interaction of each semantic decal type.

use vstd::prelude::*;

verus! {

/// Semantic decal classification
#[derive(Clone, Copy, Debug, PartialEq, Eq, Structural)]
pub enum DecalClass {
    Impact,
    Crack,
    Leak,
    DirtAccumulation,
    BulletGraze,
    WetFootprint,
    DragMark,
    BloodTransfer,
    BurnSpread,
    ScorchMark,
    MudSplash,
}

/// Eviction priority of each class: lower is evicted first.
pub open spec fn class_priority(c: DecalClass) -> u8 {
    match c {
        DecalClass::WetFootprint => 1,
        DecalClass::MudSplash => 2,
        DecalClass::DragMark => 3,
        DecalClass::Leak => 4,
        DecalClass::DirtAccumulation => 5,
        DecalClass::BloodTransfer => 6,
        DecalClass::Impact => 7,
        DecalClass::ScorchMark => 8,
        DecalClass::BulletGraze => 9,
        DecalClass::Crack => 10,
        DecalClass::BurnSpread => 10,
    }
}

/// The classes that rain washes away.
pub open spec fn class_rain_washable(c: DecalClass) -> bool {
    match c {
        DecalClass::WetFootprint | DecalClass::MudSplash | DecalClass::DragMark
        | DecalClass::BloodTransfer | DecalClass::DirtAccumulation | DecalClass::Leak => true,
        _ => false,
    }
}

impl DecalClass {
    /// Priority for eviction (lower = evicted first)
    pub fn priority(&self) -> (p: u8)
        ensures
            p == class_priority(*self),
    {
        match self {
            Self::WetFootprint => 1,
            Self::MudSplash => 2,
            Self::DragMark => 3,
            Self::Leak => 4,
            Self::DirtAccumulation => 5,
            Self::BloodTransfer => 6,
            Self::Impact => 7,
            Self::ScorchMark => 8,
            Self::BulletGraze => 9,
            Self::Crack => 10,
            Self::BurnSpread => 10,
        }
    }

    /// Whether rain washes this decal away
    pub fn rain_washable(&self) -> (washable: bool)
        ensures
            washable == class_rain_washable(*self),
    {
        matches!(self, Self::WetFootprint | Self::MudSplash | Self::DragMark
            | Self::BloodTransfer | Self::DirtAccumulation | Self::Leak)
    }
}

/// Weather-sensitive decals go first: every class that rain washes away has
/// a lower eviction priority than every class it does not.
pub proof fn lemma_washable_evicted_first(a: DecalClass, b: DecalClass)
    requires
        class_rain_washable(a),
        !class_rain_washable(b),
    ensures
        class_priority(a) < class_priority(b),
{
}

/// The decal a full budget evicts: the first of the lowest eviction priority
/// among decals of the given classes, or `None` when there are none.
pub fn eviction_index(classes: &[DecalClass]) -> (idx: Option<usize>)
    ensures
        classes@.len() == 0 <==> idx is None,
        idx matches Some(i) ==> {
            &&& i < classes@.len()
            &&& forall|j: int| 0 <= j < classes@.len() ==> class_priority(classes@[i as int]) <= class_priority(
                #[trigger] classes@[j],
            )
            &&& forall|j: int| 0 <= j < i ==> class_priority(classes@[i as int]) < class_priority(
                #[trigger] classes@[j],
            )
        },
{
    if classes.len() == 0 {
        return None;
    }
    let mut best: usize = 0;
    let mut best_p: u8 = classes[0].priority();
    let mut k: usize = 1;
    while k < classes.len()
        invariant
            0 < classes@.len(),
            best < k <= classes@.len(),
            best_p == class_priority(classes@[best as int]),
            forall|j: int| 0 <= j < k ==> best_p <= class_priority(#[trigger] classes@[j]),
            forall|j: int| 0 <= j < best ==> best_p < class_priority(#[trigger] classes@[j]),
        decreases classes@.len() - k,
    {
        let p = classes[k].priority();
        if p < best_p {
            best = k;
            best_p = p;
        }
        k = k + 1;
    }
    Some(best)
}

/// How many of the given classes are `class`.
pub fn count_class(classes: &[DecalClass], class: DecalClass) -> (n: usize)
    ensures
        n == classes@.filter(|c: DecalClass| c == class).len(),
{
    let mut n: usize = 0;
    let mut k: usize = 0;
    while k < classes.len()
        invariant
            k <= classes@.len(),
            n == classes@.take(k as int).filter(|c: DecalClass| c == class).len(),
            n <= k,
        decreases classes@.len() - k,
    {
        proof {
            assert(classes@.take(k as int + 1).drop_last() == classes@.take(k as int));
            reveal(Seq::filter);
        }
        if classes[k] == class {
            n = n + 1;
        }
        k = k + 1;
    }
    assert(classes@.take(classes@.len() as int) == classes@);
    n
}

/// The documented eviction order of decal classes, lowest priority first:
/// wet footprints, mud splashes, drag marks, leaks, dirt, blood, impacts,
/// scorch marks, bullet grazes, and last cracks and burn spreads.
pub proof fn lemma_decal_eviction_order()
    ensures
        class_priority(DecalClass::WetFootprint) == 1,
        class_priority(DecalClass::MudSplash) == 2,
        class_priority(DecalClass::DragMark) == 3,
        class_priority(DecalClass::Leak) == 4,
        class_priority(DecalClass::DirtAccumulation) == 5,
        class_priority(DecalClass::BloodTransfer) == 6,
        class_priority(DecalClass::Impact) == 7,
        class_priority(DecalClass::ScorchMark) == 8,
        class_priority(DecalClass::BulletGraze) == 9,
        class_priority(DecalClass::Crack) == 10,
        class_priority(DecalClass::BurnSpread) == 10,
        class_priority(DecalClass::ScorchMark) < class_priority(DecalClass::BulletGraze),
{
}

} // verus!
