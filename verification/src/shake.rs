//! Shake: trauma that decays with time and displaces an entity while it
//! lasts.
//!
//! Trauma is counted in millionths of a millionth of full trauma, so that a
//! decay rate in millionths per second times a frame time in microseconds is
//! an exact amount of trauma.
use crate::fixed::{
    clamped, lemma_share_within, lemma_trunc_div_odd, saturated, trunc_div, ONE,
};
use crate::transform::{Time, Transform, Vec2, Vec3};
use vstd::math::{max, min};
use vstd::prelude::*;

verus! {

/// Full trauma.
pub const FULL_TRAUMA: u64 = 1_000_000_000_000;

/// The trauma that counts: what is stored, at most full.
pub open spec fn level(trauma: int) -> int {
    min(trauma, FULL_TRAUMA as int)
}

/// Trauma after `delta` microseconds at `decay` millionths per second:
/// the level less the exact product, floored at zero.
pub open spec fn decayed(trauma: int, decay: int, delta: int) -> int {
    max(level(trauma) - decay * delta, 0)
}

/// `trauma` raised to `power`, as a share of full trauma. Each product is
/// rounded down.
pub open spec fn intensity(trauma: int, power: nat) -> int
    decreases power,
{
    if power == 0 {
        FULL_TRAUMA as int
    } else {
        intensity(trauma, (power - 1) as nat) * level(trauma) / (FULL_TRAUMA as int)
    }
}

/// A limit scaled by an intensity and by a sample in millionths.
pub open spec fn displacement(limit: int, intensity: int, sample: int) -> int {
    trunc_div(limit * intensity * sample, FULL_TRAUMA * ONE)
}

/// Intensity is a share: it lies between nothing and full.
pub proof fn lemma_intensity_is_share(trauma: int, power: nat)
    requires
        0 <= trauma,
    ensures
        0 <= intensity(trauma, power) <= FULL_TRAUMA,
    decreases power,
{
    if power > 0 {
        lemma_intensity_is_share(trauma, (power - 1) as nat);
        let prev = intensity(trauma, (power - 1) as nat);
        let l = level(trauma);
        let full = FULL_TRAUMA as int;
        assert(0 <= prev * l / full <= full) by (nonlinear_arith)
            requires
                0 <= prev <= full,
                0 <= l <= full,
                full > 0,
        ;
    }
}

/// With a power of at least one, no trauma gives no intensity.
pub proof fn lemma_no_trauma_no_intensity(power: nat)
    requires
        power >= 1,
    ensures
        intensity(0, power) == 0,
{
    let prev = intensity(0, (power - 1) as nat);
    assert(prev * 0 == 0) by (nonlinear_arith);
}

/// A displacement never exceeds its limit, and vanishes where the limit,
/// the intensity or the sample does.
pub proof fn lemma_displacement_within(limit: int, intensity: int, sample: int)
    requires
        0 <= intensity <= FULL_TRAUMA,
        -ONE <= sample <= ONE,
    ensures
        limit >= 0 ==> -limit <= displacement(limit, intensity, sample) <= limit,
        limit <= 0 ==> limit <= displacement(limit, intensity, sample) <= -limit,
        limit == 0 || intensity == 0 || sample == 0 ==> displacement(limit, intensity, sample) == 0,
{
    let den = FULL_TRAUMA * ONE;
    let weight = intensity * sample;
    assert(limit * intensity * sample == limit * weight) by (nonlinear_arith)
        requires
            weight == intensity * sample,
    ;
    assert(-den <= weight <= den) by (nonlinear_arith)
        requires
            0 <= intensity <= FULL_TRAUMA,
            -ONE <= sample <= ONE,
            weight == intensity * sample,
            den == FULL_TRAUMA * ONE,
    ;
    if weight >= 0 {
        lemma_share_within(limit, weight, den);
    } else {
        lemma_share_within(limit, -weight, den);
        assert(limit * (-weight) == -(limit * weight)) by (nonlinear_arith);
        lemma_trunc_div_odd(limit * weight, den);
    }
    if limit == 0 || intensity == 0 || sample == 0 {
        assert(limit * weight == 0) by (nonlinear_arith)
            requires
                limit == 0 || intensity == 0 || sample == 0,
                weight == intensity * sample,
        ;
    }
}

/// The trauma left after one frame.
pub fn decayed_trauma(trauma: u64, decay: u64, delta: u64) -> (left: u64)
    ensures
        left == decayed(trauma as int, decay as int, delta as int),
        left <= trauma,
        left <= FULL_TRAUMA,
{
    let held: u64 = if trauma > FULL_TRAUMA {
        FULL_TRAUMA
    } else {
        trauma
    };
    assert(decay * delta <= u128::MAX) by (nonlinear_arith)
        requires
            decay <= u64::MAX,
            delta <= u64::MAX,
    ;
    let loss: u128 = decay as u128 * delta as u128;
    if loss >= held as u128 {
        0
    } else {
        held - loss as u64
    }
}

/// The intensity of a shake at the given trauma.
pub fn shake_intensity(trauma: u64, power: u8) -> (share: u64)
    ensures
        share == intensity(trauma as int, power as nat),
        share <= FULL_TRAUMA,
{
    let held: u64 = if trauma > FULL_TRAUMA {
        FULL_TRAUMA
    } else {
        trauma
    };
    let mut share: u64 = FULL_TRAUMA;
    let mut done: u8 = 0;
    while done < power
        invariant
            done <= power,
            held == level(trauma as int),
            share == intensity(trauma as int, done as nat),
            share <= FULL_TRAUMA,
        decreases power - done,
    {
        assert(share * held <= FULL_TRAUMA * FULL_TRAUMA && share * held / (FULL_TRAUMA as int)
            <= FULL_TRAUMA) by (nonlinear_arith)
            requires
                share <= FULL_TRAUMA,
                held <= FULL_TRAUMA,
        ;
        let product: u128 = share as u128 * held as u128;
        share = (product / FULL_TRAUMA as u128) as u64;
        done += 1;
    }
    share
}

/// A value between minus one and one, in millionths.
#[derive(Clone, Copy, Debug, PartialEq, Eq)]
pub struct Sample {
    raw: i32,
}

impl Sample {
    /// Every sample lies between minus one and one.
    #[verifier::type_invariant]
    pub closed spec fn in_range(self) -> bool {
        -ONE <= self.raw <= ONE
    }

    /// The sample, in millionths.
    pub closed spec fn value(self) -> int {
        self.raw as int
    }

    /// The sample nearest to `raw` millionths.
    pub fn new(raw: i64) -> (sample: Sample)
        ensures
            sample.value() == clamped(raw as int, -ONE, ONE as int),
    {
        if raw < -1_000_000 {
            Sample { raw: -1_000_000 }
        } else if raw > 1_000_000 {
            Sample { raw: 1_000_000 }
        } else {
            Sample { raw: raw as i32 }
        }
    }

    pub fn get(&self) -> (raw: i32)
        ensures
            raw == self.value(),
            -ONE <= raw <= ONE,
    {
        proof {
            use_type_invariant(self);
        }
        self.raw
    }
}

/// A source of randomness for shaking.
pub trait RandomSource: Send + Sync {
    /// A sample for the elapsed time `time`, in microseconds. The same time
    /// is meant to give the same sample.
    fn rand(&self, time: u64) -> Sample;
}

/// A source that is not random: it always gives one half.
#[derive(Clone, Copy, Debug, PartialEq, Eq, Structural)]
pub struct NotRandom;

impl RandomSource for NotRandom {
    fn rand(&self, time: u64) -> (sample: Sample)
        ensures
            sample.value() == ONE / 2,
    {
        Sample::new(500_000)
    }
}

impl<T: RandomSource + ?Sized> RandomSource for Box<T> {
    /// A boxed source gives what the source in the box gives.
    fn rand(&self, time: u64) -> (sample: Sample)
        ensures
            call_ensures(T::rand, (&**self, time), sample),
    {
        (**self).rand(time)
    }
}

/// The shake of one entity.
pub struct CameraShake<R: RandomSource> {
    /// The largest displacement along x and y.
    pub max_offset: Vec2,
    /// The largest roll, in microradians.
    pub max_roll: i64,
    /// The trauma, out of `FULL_TRAUMA`. More than full counts as full.
    pub trauma: u64,
    /// The power to which trauma is raised to give the intensity.
    pub trauma_power: u8,
    /// The trauma lost per second, in millionths of full trauma.
    pub decay: u64,
    /// The sources for x, for y and for the roll.
    pub random_sources: [R; 3],
}

impl Default for CameraShake<NotRandom> {
    /// A shake at rest: offsets up to 100 units, a roll up to 0.1 radians,
    /// the square of trauma as intensity, and 0.8 of full trauma lost per
    /// second.
    fn default() -> (shake: Self)
        ensures
            shake.max_offset == (Vec2 { x: 100_000_000, y: 100_000_000 }),
            shake.max_roll == 100_000,
            shake.trauma == 0,
            shake.trauma_power == 2,
            shake.decay == 800_000,
            shake.random_sources@ == seq![NotRandom, NotRandom, NotRandom],
    {
        CameraShake {
            max_offset: Vec2 { x: 100_000_000, y: 100_000_000 },
            max_roll: 100_000,
            trauma: 0,
            trauma_power: 2,
            decay: 800_000,
            random_sources: [NotRandom, NotRandom, NotRandom],
        }
    }
}

/// `placed` is the displacement of a shake of the given limits and
/// intensity by the three samples: x and y are displaced, the depth is
/// zero, and the roll is displaced. A displacement is as large as its limit
/// at most, so holding it within `i64` changes it for one limit only, the
/// least `i64`.
pub open spec fn shaken_by(
    placed: Transform,
    max_offset: Vec2,
    max_roll: i64,
    intensity: int,
    sx: int,
    sy: int,
    sr: int,
) -> bool {
    &&& -ONE <= sx <= ONE
    &&& -ONE <= sy <= ONE
    &&& -ONE <= sr <= ONE
    &&& placed.translation.x == saturated(displacement(max_offset.x as int, intensity, sx))
    &&& placed.translation.y == saturated(displacement(max_offset.y as int, intensity, sy))
    &&& placed.translation.z == 0
    &&& placed.rotation == saturated(displacement(max_roll as int, intensity, sr))
}

/// A shake never displaces beyond its limits: whatever the trauma, the
/// power and the samples, x, y and the roll are no further from zero than
/// `max_offset` and `max_roll` are.
pub proof fn lemma_shaken_within_limits(
    placed: Transform,
    max_offset: Vec2,
    max_roll: i64,
    trauma: u64,
    power: u8,
    sx: int,
    sy: int,
    sr: int,
)
    requires
        shaken_by(placed, max_offset, max_roll, intensity(trauma as int, power as nat), sx, sy, sr),
    ensures
        max_offset.x >= 0 ==> -max_offset.x <= placed.translation.x <= max_offset.x,
        max_offset.x <= 0 ==> max_offset.x <= placed.translation.x <= -max_offset.x,
        max_offset.y >= 0 ==> -max_offset.y <= placed.translation.y <= max_offset.y,
        max_offset.y <= 0 ==> max_offset.y <= placed.translation.y <= -max_offset.y,
        max_roll >= 0 ==> -max_roll <= placed.rotation <= max_roll,
        max_roll <= 0 ==> max_roll <= placed.rotation <= -max_roll,
{
    let share = intensity(trauma as int, power as nat);
    lemma_intensity_is_share(trauma as int, power as nat);
    lemma_displacement_within(max_offset.x as int, share, sx);
    lemma_displacement_within(max_offset.y as int, share, sy);
    lemma_displacement_within(max_roll as int, share, sr);
}

/// One limit displaced by an intensity and a sample.
fn displace(limit: i64, intensity: u64, sample: Sample) -> (moved: i64)
    requires
        intensity <= FULL_TRAUMA,
    ensures
        moved == saturated(displacement(limit as int, intensity as int, sample.value())),
{
    let s: i32 = sample.get();
    proof {
        lemma_displacement_within(limit as int, intensity as int, s as int);
        assert(-(i64::MAX + 1) * FULL_TRAUMA <= limit * intensity <= (i64::MAX + 1) * FULL_TRAUMA)
            by (nonlinear_arith)
            requires
                -(i64::MAX + 1) <= limit <= i64::MAX,
                0 <= intensity <= FULL_TRAUMA,
        ;
    }
    let scaled: i128 = limit as i128 * intensity as i128;
    proof {
        assert(-(i64::MAX + 1) * FULL_TRAUMA * ONE <= scaled * s <= (i64::MAX + 1) * FULL_TRAUMA
            * ONE) by (nonlinear_arith)
            requires
                -(i64::MAX + 1) * FULL_TRAUMA <= scaled <= (i64::MAX + 1) * FULL_TRAUMA,
                -ONE <= s <= ONE,
        ;
    }
    let product: i128 = scaled * s as i128;
    let moved: i128 = product / 1_000_000_000_000_000_000;
    assert(moved == displacement(limit as int, intensity as int, s as int)) by {
        assert(FULL_TRAUMA * ONE == 1_000_000_000_000_000_000);
        assert(product == limit * intensity * s);
    }
    if moved > i64::MAX as i128 {
        i64::MAX
    } else {
        moved as i64
    }
}

impl<R: RandomSource> CameraShake<R> {
    /// The intensity at the present trauma.
    pub open spec fn strength(&self) -> int {
        intensity(self.trauma as int, self.trauma_power as nat)
    }

    /// The intensity at the present trauma, out of `FULL_TRAUMA`.
    pub fn intensity(&self) -> (share: u64)
        ensures
            share == self.strength(),
            share <= FULL_TRAUMA,
    {
        shake_intensity(self.trauma, self.trauma_power)
    }

    /// The placement that three samples give at the present trauma.
    pub fn shaken(&self, sx: Sample, sy: Sample, sr: Sample) -> (placed: Transform)
        ensures
            shaken_by(
                placed,
                self.max_offset,
                self.max_roll,
                self.strength(),
                sx.value(),
                sy.value(),
                sr.value(),
            ),
    {
        let share = self.intensity();
        self.placed_at(share, sx, sy, sr)
    }

    fn placed_at(&self, share: u64, sx: Sample, sy: Sample, sr: Sample) -> (placed: Transform)
        requires
            share <= FULL_TRAUMA,
        ensures
            shaken_by(
                placed,
                self.max_offset,
                self.max_roll,
                share as int,
                sx.value(),
                sy.value(),
                sr.value(),
            ),
    {
        proof {
            use_type_invariant(&sx);
            use_type_invariant(&sy);
            use_type_invariant(&sr);
        }
        Transform {
            translation: Vec3 {
                x: displace(self.max_offset.x, share, sx),
                y: displace(self.max_offset.y, share, sy),
                z: 0,
            },
            rotation: displace(self.max_roll, share, sr),
        }
    }

    /// One frame: trauma decays, and the placement of the entity is made
    /// anew. Without intensity the entity rests and no source is read;
    /// with intensity each source is read once at the elapsed time.
    pub fn step(&mut self, time: &Time) -> (placed: Transform)
        ensures
            stepped(*old(self), *final(self), placed, *time),
    {
        self.trauma = decayed_trauma(self.trauma, self.decay, time.delta);
        let share = self.intensity();
        if share > 0 {
            let sx = self.random_sources[0].rand(time.elapsed);
            let sy = self.random_sources[1].rand(time.elapsed);
            let sr = self.random_sources[2].rand(time.elapsed);
            self.placed_at(share, sx, sy, sr)
        } else {
            Transform::identity()
        }
    }
}

/// What the frame at `time` makes of a shake, and where it places the
/// entity: trauma has decayed and nothing else of the shake has changed;
/// without intensity the entity rests at the origin with no roll, and with
/// intensity it is displaced by the samples that the three sources give for
/// the elapsed time.
pub open spec fn stepped<R: RandomSource>(
    before: CameraShake<R>,
    after: CameraShake<R>,
    placed: Transform,
    time: Time,
) -> bool {
    &&& after.trauma == decayed(before.trauma as int, before.decay as int, time.delta as int)
    &&& after.max_offset == before.max_offset
    &&& after.max_roll == before.max_roll
    &&& after.trauma_power == before.trauma_power
    &&& after.decay == before.decay
    &&& after.random_sources == before.random_sources
    &&& if after.strength() == 0 {
        placed == Transform::rest()
    } else {
        exists|sx: Sample, sy: Sample, sr: Sample|
            {
                &&& call_ensures(R::rand, (&after.random_sources[0], time.elapsed), sx)
                &&& call_ensures(R::rand, (&after.random_sources[1], time.elapsed), sy)
                &&& call_ensures(R::rand, (&after.random_sources[2], time.elapsed), sr)
                &&& #[trigger] shaken_by(
                    placed,
                    after.max_offset,
                    after.max_roll,
                    after.strength(),
                    sx.value(),
                    sy.value(),
                    sr.value(),
                )
            }
    }
}

/// Shakes every entity of `query` for one frame.
pub fn apply_shake_2d<R: RandomSource>(query: &mut Vec<(Transform, CameraShake<R>)>, time: &Time)
    ensures
        final(query)@.len() == old(query)@.len(),
        forall|i: int|
            #![trigger final(query)@[i]]
            0 <= i < old(query)@.len() ==> stepped(
                old(query)@[i].1,
                final(query)@[i].1,
                final(query)@[i].0,
                *time,
            ),
{
    let count = query.len();
    let mut i: usize = 0;
    while i < count
        invariant
            i <= count,
            count == query@.len(),
            count == old(query)@.len(),
            forall|j: int|
                #![trigger query@[j]]
                0 <= j < i ==> stepped(old(query)@[j].1, query@[j].1, query@[j].0, *time),
            forall|j: int| i <= j < count ==> query@[j] == old(query)@[j],
        decreases count - i,
    {
        let entity = &mut query[i];
        let placed = entity.1.step(time);
        entity.0 = placed;
        i += 1;
    }
}

/// The seeded coherent-noise source: its seed, and where on the noise line
/// it is read.
#[derive(Clone, Copy, Debug, PartialEq, Eq, Structural)]
pub struct MyNoise {
    pub seed: u32,
}

impl MyNoise {
    pub fn new(seed: u32) -> (noise: MyNoise)
        ensures
            noise.seed == seed,
    {
        MyNoise { seed }
    }

    /// The point read at the elapsed time `time` in microseconds: the line
    /// is walked at fifteen units per second. In millionths of a unit.
    pub fn point(&self, time: u64) -> (at: u128)
        ensures
            at == 15 * time,
    {
        15 * (time as u128)
    }
}

/// The time that a run of frames takes, each given by its length in
/// microseconds.
pub open spec fn run_time(frames: Seq<nat>) -> nat
    decreases frames.len(),
{
    if frames.len() == 0 {
        0
    } else {
        run_time(frames.drop_last()) + frames.last()
    }
}

/// Trauma after a run of frames with nothing added in between.
pub open spec fn decayed_over(trauma: int, decay: int, frames: Seq<nat>) -> int
    decreases frames.len(),
{
    if frames.len() == 0 {
        trauma
    } else {
        decayed(decayed_over(trauma, decay, frames.drop_last()), decay, frames.last() as int)
    }
}

/// The whole seconds after which trauma has run out: the trauma divided
/// by the decay per second, rounded up.
pub open spec fn seconds_to_rest(trauma: int, decay: int) -> int
    recommends
        trauma >= 0,
        decay > 0,
{
    (trauma + decay * ONE - 1) / (decay * ONE)
}

/// A frame never raises trauma.
pub proof fn lemma_trauma_never_rises(trauma: int, decay: int, delta: int)
    requires
        trauma >= 0,
        decay >= 0,
        delta >= 0,
    ensures
        0 <= decayed(trauma, decay, delta) <= trauma,
{
    assert(decay * delta >= 0) by (nonlinear_arith)
        requires
            decay >= 0,
            delta >= 0,
    ;
}

/// Over a run of frames trauma only falls: after more frames of the run
/// there is no more trauma than after fewer.
pub proof fn lemma_trauma_falls_over_run(trauma: int, decay: int, frames: Seq<nat>, fewer: int)
    requires
        trauma >= 0,
        decay >= 0,
        0 <= fewer <= frames.len(),
    ensures
        0 <= decayed_over(trauma, decay, frames) <= decayed_over(trauma, decay, frames.take(fewer))
            <= trauma,
    decreases frames.len(),
{
    if frames.len() == 0 {
        assert(frames.take(fewer) =~= frames);
    } else if fewer == frames.len() {
        assert(frames.take(fewer) =~= frames);
        lemma_trauma_falls_over_run(trauma, decay, frames.drop_last(), 0);
        lemma_trauma_never_rises(
            decayed_over(trauma, decay, frames.drop_last()),
            decay,
            frames.last() as int,
        );
        assert(frames.drop_last().take(0) =~= frames.take(0));
    } else {
        assert(frames.drop_last().take(fewer) =~= frames.take(fewer));
        lemma_trauma_falls_over_run(trauma, decay, frames.drop_last(), fewer);
        lemma_trauma_never_rises(
            decayed_over(trauma, decay, frames.drop_last()),
            decay,
            frames.last() as int,
        );
    }
}

/// Frames add up: after a run of at least one frame, trauma is what one
/// frame as long as the whole run would leave.
pub proof fn lemma_decay_adds_up(trauma: int, decay: int, frames: Seq<nat>)
    requires
        trauma >= 0,
        decay >= 0,
        frames.len() > 0,
    ensures
        decayed_over(trauma, decay, frames) == decayed(trauma, decay, run_time(frames) as int),
    decreases frames.len(),
{
    let head = frames.drop_last();
    let last = frames.last() as int;
    if head.len() == 0 {
        assert(run_time(head) == 0);
    } else {
        lemma_decay_adds_up(trauma, decay, head);
        let so_far = run_time(head) as int;
        assert(decay * (so_far + last) == decay * so_far + decay * last) by (nonlinear_arith);
        assert(decay * so_far >= 0 && decay * last >= 0) by (nonlinear_arith)
            requires
                decay >= 0,
                so_far >= 0,
                last >= 0,
        ;
    }
}

/// Trauma runs out: with a decay above zero, a run of frames that takes
/// at least `seconds_to_rest` seconds leaves exactly no trauma.
pub proof fn lemma_trauma_runs_out(trauma: int, decay: int, frames: Seq<nat>)
    requires
        trauma >= 0,
        decay > 0,
        run_time(frames) >= seconds_to_rest(trauma, decay) * ONE,
    ensures
        decayed_over(trauma, decay, frames) == 0,
{
    let per_second = decay * ONE;
    let seconds = seconds_to_rest(trauma, decay);
    assert(per_second > 0) by (nonlinear_arith)
        requires
            decay > 0,
            per_second == decay * ONE,
    ;
    assert(seconds * per_second >= trauma && seconds >= 0) by (nonlinear_arith)
        requires
            per_second > 0,
            trauma >= 0,
            seconds == (trauma + per_second - 1) / per_second,
    ;
    if frames.len() == 0 {
        assert(run_time(frames) == 0);
        assert(trauma == 0) by (nonlinear_arith)
            requires
                seconds * ONE <= 0,
                seconds >= 0,
                seconds * per_second >= trauma,
                trauma >= 0,
        ;
    } else {
        lemma_decay_adds_up(trauma, decay, frames);
        let time = run_time(frames) as int;
        assert(decay * time >= trauma) by (nonlinear_arith)
            requires
                time >= seconds * ONE,
                seconds * per_second >= trauma,
                per_second == decay * ONE,
                decay > 0,
        ;
    }
}

/// Once trauma has run out the entity rests: a frame that leaves no
/// trauma, with a power of at least one, places the entity at the origin
/// with no roll.
pub proof fn lemma_rest_without_trauma<R: RandomSource>(
    before: CameraShake<R>,
    after: CameraShake<R>,
    placed: Transform,
    time: Time,
)
    requires
        stepped(before, after, placed, time),
        after.trauma == 0,
        after.trauma_power >= 1,
    ensures
        placed == Transform::rest(),
{
    lemma_no_trauma_no_intensity(after.trauma_power as nat);
}

} // verus!
