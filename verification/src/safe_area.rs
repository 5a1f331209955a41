//! Safe areas: the regions of the ground in which sheep are out of the
//! wolves' reach.

use crate::random::random_range;
use crate::sheep::Sheep;
use crate::vector::{
    clamp_i32, div_round, lemma_product_bound, lemma_square_bound, round_div, saturate, Vec2, Vec3,
};
use vstd::prelude::*;

verus! {

/// How many points `get_random_point_inside` tries before it settles for the
/// centre.
pub const MAX_SAMPLE_ATTEMPTS: u32 = 256;

/// A region of the ground plane. A rectangle is given by its centre and its
/// full width and depth, a circle by its centre and radius. The border is
/// outside.
#[derive(Clone, Copy, Debug, PartialEq, Eq, Structural)]
pub enum SafeArea {
    Rect { pos: Vec2, size: Vec2 },
    Circle { pos: Vec2, radius: i32 },
}

/// The area a land zone had when it was laid out: the baseline from which
/// its size over the day is derived.
#[derive(Clone, Copy, Debug, PartialEq, Eq, Structural)]
pub struct LandSafeArea {
    pub start_area: SafeArea,
}

/// `len` multiplied by `permille / 1000`, rounded to the nearest and
/// saturating.
pub open spec fn scale_length(len: int, permille: int) -> int {
    clamp_i32(round_div(len * permille, 1000))
}

/// `len` divided by `permille / 1000`, rounded to the nearest and saturating.
/// A negative divisor turns the sign.
pub open spec fn unscale_length(len: int, permille: int) -> int {
    if permille > 0 {
        clamp_i32(round_div(len * 1000, permille))
    } else {
        clamp_i32(round_div(-(len * 1000), -permille))
    }
}

fn scale_coord(len: i32, permille: i32) -> (r: i32)
    ensures
        r as int == scale_length(len as int, permille as int),
{
    proof {
        lemma_product_bound(len as int, permille as int, 0x8000_0000, 0x8000_0000);
    }
    saturate(div_round(len as i64 * permille as i64, 1000))
}

fn unscale_coord(len: i32, permille: i32) -> (r: i32)
    requires
        permille != 0,
    ensures
        r as int == unscale_length(len as int, permille as int),
{
    if permille > 0 {
        saturate(div_round(len as i64 * 1000, permille as i64))
    } else {
        saturate(div_round(-(len as i64 * 1000), -(permille as i64)))
    }
}

impl SafeArea {
    /// Whether the point lies strictly inside the area.
    pub open spec fn contains(self, p: Vec2) -> bool {
        match self {
            SafeArea::Rect { pos, size } => {
                &&& 2 * vstd::math::abs(p.x - pos.x) < size.x
                &&& 2 * vstd::math::abs(p.y - pos.y) < size.y
            },
            SafeArea::Circle { pos, radius } => {
                &&& radius > 0
                &&& pos.dist_sq(p) < radius * radius
            },
        }
    }

    /// The centre of the area.
    pub open spec fn center(self) -> Vec2 {
        match self {
            SafeArea::Rect { pos, size } => pos,
            SafeArea::Circle { pos, radius } => pos,
        }
    }

    /// The centre as a point on the ground.
    pub open spec fn center_on_ground(self) -> Vec3 {
        Vec3 { x: self.center().x, y: 0, z: self.center().y }
    }

    /// The same shape around another centre.
    pub open spec fn moved_to(self, p: Vec2) -> SafeArea {
        match self {
            SafeArea::Rect { pos, size } => SafeArea::Rect { pos: p, size },
            SafeArea::Circle { pos, radius } => SafeArea::Circle { pos: p, radius },
        }
    }

    /// The same kind of shape around the same centre, its size or radius
    /// multiplied by `permille / 1000`.
    pub open spec fn scaled_by(self, permille: int) -> SafeArea {
        match self {
            SafeArea::Rect { pos, size } => SafeArea::Rect {
                pos,
                size: Vec2 {
                    x: scale_length(size.x as int, permille) as i32,
                    y: scale_length(size.y as int, permille) as i32,
                },
            },
            SafeArea::Circle { pos, radius } => SafeArea::Circle {
                pos,
                radius: scale_length(radius as int, permille) as i32,
            },
        }
    }

    /// The same kind of shape around the same centre, its size or radius
    /// divided by `permille / 1000`.
    pub open spec fn shrunk_by(self, permille: int) -> SafeArea {
        match self {
            SafeArea::Rect { pos, size } => SafeArea::Rect {
                pos,
                size: Vec2 {
                    x: unscale_length(size.x as int, permille) as i32,
                    y: unscale_length(size.y as int, permille) as i32,
                },
            },
            SafeArea::Circle { pos, radius } => SafeArea::Circle {
                pos,
                radius: unscale_length(radius as int, permille) as i32,
            },
        }
    }

    /// Whether `sheep_pos` lies strictly inside the area.
    pub fn in_area(&self, sheep_pos: Vec2) -> (inside: bool)
        ensures
            inside == self.contains(sheep_pos),
    {
        match self {
            SafeArea::Rect { pos, size } => {
                let dx: i64 = sheep_pos.x as i64 - pos.x as i64;
                let dy: i64 = sheep_pos.y as i64 - pos.y as i64;
                let ax: i64 = if dx < 0 { -dx } else { dx };
                let ay: i64 = if dy < 0 { -dy } else { dy };
                2 * ax < size.x as i64 && 2 * ay < size.y as i64
            },
            SafeArea::Circle { pos, radius } => {
                if *radius <= 0 {
                    false
                } else {
                    let r: u128 = *radius as u128;
                    proof {
                        lemma_square_bound(r as int, 0x8000_0000);
                    }
                    pos.distance_squared(sheep_pos) < r * r
                }
            },
        }
    }

    /// Moves the area so that its centre is `new_pos`.
    pub fn set_pos(&mut self, new_pos: Vec2)
        ensures
            *final(self) == old(self).moved_to(new_pos),
    {
        match self {
            SafeArea::Rect { pos, size: _ } => {
                *pos = new_pos;
            },
            SafeArea::Circle { pos, radius: _ } => {
                *pos = new_pos;
            },
        }
    }

    /// Divides the size or radius by `scale`, given in permille. A negative
    /// scale turns the sign of the size, and such an area holds nothing.
    pub fn downscale(&mut self, scale: i32)
        requires
            scale != 0,
        ensures
            *final(self) == old(self).shrunk_by(scale as int),
    {
        match self {
            SafeArea::Rect { pos: _, size } => {
                *size = Vec2 { x: unscale_coord(size.x, scale), y: unscale_coord(size.y, scale) };
            },
            SafeArea::Circle { pos: _, radius } => {
                *radius = unscale_coord(*radius, scale);
            },
        }
    }

    /// The centre as a point on the ground.
    pub fn get_center(&self) -> (c: Vec3)
        ensures
            c == self.center_on_ground(),
    {
        match self {
            SafeArea::Rect { pos, size: _ } => Vec3 { x: pos.x, y: 0, z: pos.y },
            SafeArea::Circle { pos, radius: _ } => Vec3 { x: pos.x, y: 0, z: pos.y },
        }
    }

    /// The centre on the ground plane.
    pub fn get_center_2d(&self) -> (c: Vec2)
        ensures
            c == self.center(),
    {
        match self {
            SafeArea::Rect { pos, size: _ } => *pos,
            SafeArea::Circle { pos, radius: _ } => *pos,
        }
    }

    /// The width of a rectangle, the radius of a circle.
    pub fn get_width(&self) -> (w: i32)
        ensures
            self matches SafeArea::Rect { pos, size } ==> w == size.x,
            self matches SafeArea::Circle { pos, radius } ==> w == radius,
    {
        match self {
            SafeArea::Rect { pos: _, size } => size.x,
            SafeArea::Circle { pos: _, radius } => *radius,
        }
    }

    /// The area with its size or radius multiplied by `scale`, given in
    /// permille. Kind and centre stay.
    pub fn get_scaled(&self, scale: i32) -> (scaled: SafeArea)
        ensures
            scaled == self.scaled_by(scale as int),
    {
        match self {
            SafeArea::Rect { pos, size } => SafeArea::Rect {
                pos: *pos,
                size: Vec2 { x: scale_coord(size.x, scale), y: scale_coord(size.y, scale) },
            },
            SafeArea::Circle { pos, radius } => SafeArea::Circle {
                pos: *pos,
                radius: scale_coord(*radius, scale),
            },
        }
    }

    /// The point on the ground, if it lies inside the area.
    pub fn point_if_inside(&self, candidate: Vec2) -> (p: Option<Vec3>)
        ensures
            p == if self.contains(candidate) {
                Some(Vec3 { x: candidate.x, y: 0, z: candidate.y })
            } else {
                None
            },
    {
        if self.in_area(candidate) {
            Some(Vec3 { x: candidate.x, y: 0, z: candidate.y })
        } else {
            None
        }
    }

    /// A point of the area picked by chance, on the ground. Points are drawn
    /// evenly from the square that reaches `level_size` to each side of the
    /// origin until one lies inside the area. After `MAX_SAMPLE_ATTEMPTS`
    /// points that lie outside, the centre is returned instead.
    pub fn get_random_point_inside(&self, level_size: i32) -> (p: Vec3)
        requires
            level_size > 0,
        ensures
            p.y == 0,
            p == self.center_on_ground() || {
                &&& self.contains(Vec2 { x: p.x, y: p.z })
                &&& -level_size <= p.x < level_size
                &&& -level_size <= p.z < level_size
            },
    {
        let mut rng = rand::thread_rng();
        let mut attempt: u32 = 0;
        while attempt < MAX_SAMPLE_ATTEMPTS
            invariant
                level_size > 0,
            decreases MAX_SAMPLE_ATTEMPTS - attempt,
        {
            let x: i64 = random_range(&mut rng, -(level_size as i64), level_size as i64);
            let y: i64 = random_range(&mut rng, -(level_size as i64), level_size as i64);
            if let Some(point) = self.point_if_inside(Vec2 { x: x as i32, y: y as i32 }) {
                return point;
            }
            attempt += 1;
        }
        self.get_center()
    }
}

/// How many sheep stand in a safe area.
#[derive(Clone, Copy, Debug, PartialEq, Eq, Structural)]
pub struct SheepCounter {
    pub count: u32,
}

impl Default for SheepCounter {
    fn default() -> (counter: SheepCounter)
        ensures
            counter.count == 0,
    {
        SheepCounter { count: 0 }
    }
}

/// Whether the point lies inside at least one of the areas.
pub open spec fn in_any_area(areas: Seq<SafeArea>, p: Vec2) -> bool {
    exists|k: int| 0 <= k < areas.len() && #[trigger] areas[k].contains(p)
}

/// How many of the first `n` sheep stand inside at least one of the areas.
pub open spec fn count_inside(areas: Seq<SafeArea>, sheep: Seq<Sheep>, n: int) -> int
    decreases n,
{
    if n <= 0 {
        0
    } else {
        count_inside(areas, sheep, n - 1) + if in_any_area(areas, sheep[n - 1].ground()) {
            1int
        } else {
            0int
        }
    }
}

/// Whether the point lies inside at least one of the areas.
pub fn any_area_contains(safe_areas: &Vec<SafeArea>, p: Vec2) -> (inside: bool)
    ensures
        inside == in_any_area(safe_areas@, p),
{
    let mut k: usize = 0;
    while k < safe_areas.len()
        invariant
            k <= safe_areas.len(),
            forall|j: int| 0 <= j < k ==> !#[trigger] safe_areas@[j].contains(p),
        decreases safe_areas.len() - k,
    {
        if safe_areas[k].in_area(p) {
            return true;
        }
        k += 1;
    }
    false
}

/// Marks every sheep that stands outside all safe areas, clears the mark of
/// the others, and counts those inside.
pub fn count_sheeps(safe_areas: &Vec<SafeArea>, sheep: &mut Vec<Sheep>, counter: &mut SheepCounter)
    requires
        old(sheep).len() <= u32::MAX,
    ensures
        final(sheep).len() == old(sheep).len(),
        forall|i: int|
            0 <= i < old(sheep).len() ==> final(sheep)[i] == (Sheep {
                out_of_safe_area: !in_any_area(safe_areas@, #[trigger] old(sheep)[i].ground()),
                ..old(sheep)[i]
            }),
        final(counter).count == count_inside(safe_areas@, old(sheep)@, old(sheep).len() as int),
{
    let mut count: u32 = 0;
    let mut i: usize = 0;
    while i < sheep.len()
        invariant
            i <= sheep.len(),
            sheep.len() == old(sheep).len(),
            sheep.len() <= u32::MAX,
            count <= i,
            count == count_inside(safe_areas@, old(sheep)@, i as int),
            forall|j: int|
                0 <= j < i ==> sheep[j] == (Sheep {
                    out_of_safe_area: !in_any_area(safe_areas@, #[trigger] old(sheep)[j].ground()),
                    ..old(sheep)[j]
                }),
            forall|j: int| i <= j < sheep.len() ==> sheep[j] == old(sheep)[j],
        decreases sheep.len() - i,
    {
        let p = Vec2 { x: sheep[i].translation.x, y: sheep[i].translation.z };
        if any_area_contains(safe_areas, p) {
            count += 1;
            sheep[i].out_of_safe_area = false;
        } else {
            sheep[i].out_of_safe_area = true;
        }
        i += 1;
    }
    counter.count = count;
}

/// Scaling by one whole leaves an area as it is, and so what it contains.
pub proof fn lemma_scaled_by_one(area: SafeArea, p: Vec2)
    ensures
        area.scaled_by(1000) == area,
        area.scaled_by(1000).contains(p) == area.contains(p),
{
    assert forall|len: int| i32::MIN <= len <= i32::MAX implies #[trigger] scale_length(len, 1000)
        == len by {
        assert((2 * (len * 1000) + 1000) / 2000 == len);
    }
}

/// Scaling by a half or more neither loses nor gains the centre: an area
/// holds its centre after scaling exactly if it held it before, which is
/// when its size or radius is positive.
pub proof fn lemma_scaled_keeps_center(area: SafeArea, permille: int)
    requires
        500 <= permille,
    ensures
        area.scaled_by(permille).contains(area.center()) == area.contains(area.center()),
{
    assert forall|len: int| #![trigger scale_length(len, permille)]
        i32::MIN <= len <= i32::MAX implies (scale_length(len, permille) > 0) == (len > 0) by {
        if len > 0 {
            assert(len * permille >= 500) by (nonlinear_arith)
                requires
                    len >= 1,
                    permille >= 500,
            ;
        } else {
            assert(len * permille <= 0) by (nonlinear_arith)
                requires
                    len <= 0,
                    permille >= 500,
            ;
        }
    }
    match area {
        SafeArea::Rect { pos, size } => {},
        SafeArea::Circle { pos, radius } => {
            let r = scale_length(radius as int, permille);
            assert(r > 0 ==> r * r > 0) by (nonlinear_arith);
            assert(radius > 0 ==> radius * radius > 0) by (nonlinear_arith);
        },
    }
}

} // verus!
