//! The bullet manager: floating messages spawned from submitted text,
//! animated as a pure function of elapsed time, and culled once they have
//! scrolled past the right edge of the viewport.

use vstd::prelude::*;
use crate::rng::random_in_range;
use crate::Rgb;
use crate::Size;

verus! {

/// Horizontal distance (in pixels) by which a bullet spawns to the left of
/// the screen origin; its position at zero elapsed time is `-START_OFFSET`.
pub const START_OFFSET: u64 = 400;

/// Slowest horizontal speed a spawned bullet can receive (pixels per time unit).
pub const MIN_SPEED: u64 = 100;

/// Exclusive upper bound on a spawned bullet's horizontal speed.
pub const MAX_SPEED: u64 = 200;

/// Vertical band at the bottom of the viewport in which no bullet spawns.
pub const BOTTOM_MARGIN: u32 = 100;

/// Latest timestamp the manager accepts. Together with `MAX_SPEED` this keeps
/// every position computation inside `u64` and `i64`.
pub const MAX_TIME: u64 = 1_000_000_000_000;

/// A floating message. Immutable once spawned; it leaves the collection when
/// its computed position passes the viewport width.
pub struct Bullet {
    /// Identifier, unique among all bullets this manager has ever spawned.
    pub id: u64,
    /// Horizontal speed in pixels per time unit.
    pub speed: u64,
    /// Spawn timestamp.
    pub time: u64,
    /// The message text.
    pub msg: String,
    /// Vertical offset of the bullet's row.
    pub height: u32,
    /// Text color.
    pub color: Rgb,
}

/// One bullet as it is to be drawn on a particular frame.
pub struct BulletFrame {
    pub id: u64,
    /// Horizontal position; negative while the bullet is still off-screen left.
    pub x: i64,
    /// Vertical position (the bullet's fixed row).
    pub y: u32,
    pub msg: String,
    pub color: Rgb,
}

/// Owns the live bullets. Bullets are appended by `submit` and removed only
/// by `advance_and_cull` and `clear`.
pub struct BulletManager {
    pub bullets: Vec<Bullet>,
    /// The identifier the next spawned bullet will receive; identifiers are
    /// issued in increasing order and never reused.
    pub next_id: u64,
}

/// Time elapsed since `spawn`, clamped below at zero.
pub open spec fn elapsed_of(now: u64, spawn: u64) -> int {
    if now >= spawn {
        now - spawn
    } else {
        0
    }
}

/// The horizontal position of bullet `b` at time `now`.
pub open spec fn x_of(b: Bullet, now: u64) -> int {
    elapsed_of(now, b.time) * b.speed - START_OFFSET
}

/// Whether bullet `b` is still inside the viewport of width `width` at `now`.
pub open spec fn live(b: Bullet, now: u64, width: u32) -> bool {
    x_of(b, now) < width
}

/// The bullets of `s` that survive an advance at time `now` with viewport
/// width `width`, in their original order.
pub open spec fn culled(s: Seq<Bullet>, now: u64, width: u32) -> Seq<Bullet>
    decreases s.len(),
{
    if s.len() == 0 {
        s
    } else {
        let rest = culled(s.drop_last(), now, width);
        if live(s.last(), now, width) {
            rest.push(s.last())
        } else {
            rest
        }
    }
}

/// Whether some bullet in `s` carries identifier `id`.
pub open spec fn contains_id(s: Seq<Bullet>, id: u64) -> bool {
    exists|i: int| 0 <= i < s.len() && s[i].id == id
}

/// Identifiers strictly increase along the collection (so all are distinct).
pub open spec fn ids_increasing(s: Seq<Bullet>) -> bool {
    forall|i: int, j: int| 0 <= i < j < s.len() ==> s[i].id < s[j].id
}

/// Every identifier in `s` is below `n`.
pub open spec fn ids_below(s: Seq<Bullet>, n: u64) -> bool {
    forall|i: int| 0 <= i < s.len() ==> (#[trigger] s[i]).id < n
}

/// Every speed in `s` lies in the spawn range.
pub open spec fn speeds_in_range(s: Seq<Bullet>) -> bool {
    forall|i: int| 0 <= i < s.len() ==> MIN_SPEED <= (#[trigger] s[i]).speed < MAX_SPEED
}

/// What `submit` promises of the bullet it appends: everything but the
/// randomly drawn speed, row and color is determined, and those stay in
/// their documented ranges.
pub open spec fn spawned(b: Bullet, id: u64, text: Seq<char>, now: u64, viewport: Size) -> bool {
    &&& b.id == id
    &&& b.time == now
    &&& b.msg@ == text
    &&& MIN_SPEED <= b.speed < MAX_SPEED
    &&& b.height < viewport.height - BOTTOM_MARGIN
}

/// Frame `f` is the rendering of bullet `b` at time `now`.
pub open spec fn frame_matches(f: BulletFrame, b: Bullet, now: u64) -> bool {
    &&& f.id == b.id
    &&& f.x == x_of(b, now)
    &&& f.y == b.height
    &&& f.msg@ == b.msg@
    &&& f.color == b.color
}

impl BulletManager {
    /// The manager's invariant: identifiers are issued in increasing order,
    /// all below `next_id`, and every stored speed is in the spawn range.
    pub open spec fn wf(self) -> bool {
        &&& ids_increasing(self.bullets@)
        &&& ids_below(self.bullets@, self.next_id)
        &&& speeds_in_range(self.bullets@)
    }

    /// An empty manager.
    pub fn new() -> (r: Self)
        ensures
            r.wf(),
            r.bullets@ == Seq::<Bullet>::empty(),
            r.next_id == 0,
    {
        BulletManager { bullets: Vec::new(), next_id: 0 }
    }

    /// Spawns a bullet carrying `text`: its speed is drawn from
    /// `[MIN_SPEED, MAX_SPEED)`, its row from the viewport's height minus the
    /// bottom margin, its color freely per channel; its timestamp is `now`
    /// and its identifier is fresh. Nothing is rejected: empty text spawns a
    /// visible empty bullet.
    pub fn submit(&mut self, text: String, now: u64, viewport: Size) -> (id: u64)
        requires
            viewport.height > BOTTOM_MARGIN,
            old(self).wf(),
            old(self).next_id < u64::MAX,
        ensures
            final(self).wf(),
            id == old(self).next_id,
            final(self).next_id == old(self).next_id + 1,
            final(self).bullets@.len() == old(self).bullets@.len() + 1,
            final(self).bullets@ == old(self).bullets@.push(final(self).bullets@.last()),
            spawned(final(self).bullets@.last(), id, text@, now, viewport),
    {
        let id = self.next_id;
        self.next_id = self.next_id + 1;
        let speed = random_in_range(MIN_SPEED, MAX_SPEED);
        let row = random_in_range(0, (viewport.height - BOTTOM_MARGIN) as u64);
        let r = random_in_range(0, 255);
        let g = random_in_range(0, 255);
        let b = random_in_range(0, 255);
        assert(row < u32::MAX as u64);
        let bullet = Bullet {
            id,
            speed,
            time: now,
            msg: text,
            height: row as u32,
            color: Rgb { r: r as u8, g: g as u8, b: b as u8 },
        };
        self.bullets.push(bullet);
        proof {
            assert(self.bullets@.drop_last() =~= old(self).bullets@);
            assert(ids_increasing(self.bullets@)) by {
                assert forall|i: int, j: int|
                    0 <= i < j < self.bullets@.len() implies self.bullets@[i].id
                    < self.bullets@[j].id by {
                    if j < self.bullets@.len() - 1 {
                        assert(self.bullets@[i] == old(self).bullets@[i]);
                        assert(self.bullets@[j] == old(self).bullets@[j]);
                    } else {
                        assert(self.bullets@[i] == old(self).bullets@[i]);
                        assert(old(self).bullets@[i].id < old(self).next_id);
                    }
                }
            }
        }
        id
    }

    /// One animation step: computes every bullet's position at `now`, keeps
    /// exactly the bullets still left of the viewport's right edge (in their
    /// original order), and returns one frame per surviving bullet for the
    /// caller to draw. Calling it again with the same inputs returns the same
    /// surviving set: bullets only ever leave.
    pub fn advance_and_cull(&mut self, now: u64, width: u32) -> (frames: Vec<BulletFrame>)
        requires
            old(self).wf(),
            now <= MAX_TIME,
        ensures
            final(self).wf(),
            final(self).next_id == old(self).next_id,
            final(self).bullets@ == culled(old(self).bullets@, now, width),
            frames@.len() == final(self).bullets@.len(),
            forall|i: int|
                0 <= i < frames@.len() ==> frame_matches(
                    frames@[i],
                    final(self).bullets@[i],
                    now,
                ),
    {
        let ghost s = old(self).bullets@;
        let mut kept: Vec<Bullet> = Vec::new();
        let mut frames: Vec<BulletFrame> = Vec::new();
        while self.bullets.len() > 0
            invariant
                now <= MAX_TIME,
                speeds_in_range(s),
                self.bullets@.len() <= s.len(),
                self.bullets@ == s.subrange(s.len() - self.bullets@.len(), s.len() as int),
                kept@ == culled(s.subrange(0, s.len() - self.bullets@.len()), now, width),
                frames@.len() == kept@.len(),
                forall|i: int| 0 <= i < frames@.len() ==> frame_matches(frames@[i], kept@[i], now),
                self.next_id == old(self).next_id,
            decreases self.bullets@.len(),
        {
            let ghost k = s.len() - self.bullets@.len();
            let b = self.bullets.remove(0);
            proof {
                assert(b == s[k as int]);
                assert(self.bullets@ =~= s.subrange(k as int + 1, s.len() as int));
                assert(MIN_SPEED <= s[k as int].speed < MAX_SPEED);
            }
            let elapsed: u64 = if now >= b.time {
                now - b.time
            } else {
                0
            };
            assert(elapsed as int * b.speed as int <= 200_000_000_000_000) by (nonlinear_arith)
                requires
                    elapsed <= 1_000_000_000_000u64,
                    b.speed < 200u64,
            ;
            let prod: u64 = elapsed * b.speed;
            let x: i64 = (prod as i64) - (START_OFFSET as i64);
            proof {
                assert(x == x_of(b, now));
            }
            if x < width as i64 {
                let frame = BulletFrame {
                    id: b.id,
                    x,
                    y: b.height,
                    msg: b.msg.clone(),
                    color: b.color,
                };
                frames.push(frame);
                kept.push(b);
            }
            proof {
                let t = s.subrange(0, k as int + 1);
                assert(t.drop_last() =~= s.subrange(0, k as int));
                assert(t.last() == s[k as int]);
                assert(kept@ == culled(t, now, width));
            }
        }
        proof {
            assert(s.subrange(0, s.len() as int) =~= s);
        }
        self.bullets = kept;
        proof {
            lemma_culled_wf(s, now, width, old(self).next_id);
        }
        frames
    }

    /// Empties the collection; the identifier counter keeps its value, so
    /// identifiers of cleared bullets are still never reused.
    pub fn clear(&mut self)
        requires
            old(self).wf(),
        ensures
            final(self).wf(),
            final(self).bullets@ == Seq::<Bullet>::empty(),
            final(self).next_id == old(self).next_id,
    {
        self.bullets.clear();
        proof {
            assert(self.bullets@ =~= Seq::<Bullet>::empty());
        }
    }
}

/// Every bullet of the culled sequence is one of the original bullets.
pub proof fn lemma_culled_contains(s: Seq<Bullet>, now: u64, width: u32)
    ensures
        forall|i: int|
            0 <= i < culled(s, now, width).len() ==> exists|j: int|
                0 <= j < s.len() && s[j] == #[trigger] culled(s, now, width)[i],
    decreases s.len(),
{
    if s.len() > 0 {
        let sp = s.drop_last();
        lemma_culled_contains(sp, now, width);
        let c = culled(s, now, width);
        let cp = culled(sp, now, width);
        assert forall|i: int| 0 <= i < c.len() implies exists|j: int|
            0 <= j < s.len() && s[j] == #[trigger] c[i] by {
            if live(s.last(), now, width) && i == c.len() - 1 {
                assert(s[s.len() - 1] == c[i]);
            } else {
                assert(c[i] == cp[i]);
                let j = choose|j: int| 0 <= j < sp.len() && sp[j] == cp[i];
                assert(s[j] == c[i]);
            }
        }
    }
}

/// Every bullet of the culled sequence is still inside the viewport.
pub proof fn lemma_culled_live(s: Seq<Bullet>, now: u64, width: u32)
    ensures
        forall|i: int|
            0 <= i < culled(s, now, width).len() ==> live(
                #[trigger] culled(s, now, width)[i],
                now,
                width,
            ),
    decreases s.len(),
{
    if s.len() > 0 {
        let sp = s.drop_last();
        lemma_culled_live(sp, now, width);
        let c = culled(s, now, width);
        let cp = culled(sp, now, width);
        assert forall|i: int| 0 <= i < c.len() implies live(c[i], now, width) by {
            if !(live(s.last(), now, width) && i == c.len() - 1) {
                assert(c[i] == cp[i]);
            }
        }
    }
}

/// Culling preserves the manager's invariant over its bullet sequence.
pub proof fn lemma_culled_wf(s: Seq<Bullet>, now: u64, width: u32, n: u64)
    requires
        ids_increasing(s),
        ids_below(s, n),
        speeds_in_range(s),
    ensures
        ids_increasing(culled(s, now, width)),
        ids_below(culled(s, now, width), n),
        speeds_in_range(culled(s, now, width)),
    decreases s.len(),
{
    if s.len() > 0 {
        let sp = s.drop_last();
        assert(forall|i: int| 0 <= i < sp.len() ==> sp[i] == s[i]);
        lemma_culled_wf(sp, now, width, n);
        lemma_culled_contains(sp, now, width);
        let c = culled(s, now, width);
        let cp = culled(sp, now, width);
        assert forall|i: int, j: int| 0 <= i < j < c.len() implies c[i].id < c[j].id by {
            if live(s.last(), now, width) && j == c.len() - 1 {
                assert(c[i] == cp[i]);
                let m = choose|m: int| 0 <= m < sp.len() && sp[m] == cp[i];
                assert(s[m].id < s[s.len() - 1].id);
            }
        }
        assert forall|i: int|
            0 <= i < c.len() implies (#[trigger] c[i]).id < n && MIN_SPEED <= c[i].speed
            < MAX_SPEED by {
            if live(s.last(), now, width) && i == c.len() - 1 {
                assert(c[i] == s[s.len() - 1]);
                assert(ids_below(s, n) && 0 <= s.len() - 1 < s.len());
                assert(s[s.len() - 1].id < n);
                assert(MIN_SPEED <= s[s.len() - 1].speed < MAX_SPEED);
            } else {
                assert(c[i] == cp[i]);
            }
        }
    }
}

/// Law: an advance never conjures a bullet. An identifier absent from the
/// collection before `advance_and_cull` is still absent afterwards.
pub proof fn lemma_cull_no_new_ids(s: Seq<Bullet>, now: u64, width: u32, id: u64)
    requires
        !contains_id(s, id),
    ensures
        !contains_id(culled(s, now, width), id),
{
    lemma_culled_contains(s, now, width);
    let c = culled(s, now, width);
    if contains_id(c, id) {
        let i = choose|i: int| 0 <= i < c.len() && c[i].id == id;
        let j = choose|j: int| 0 <= j < s.len() && s[j] == c[i];
        assert(0 <= j < s.len() && s[j].id == id);
        assert(false);
    }
}

/// Law: monotonic culling. A bullet whose computed position has reached the
/// viewport width is dropped by `advance_and_cull`, and (identifiers being
/// unique) its identifier does not appear in the surviving collection.
pub proof fn lemma_cull_drops_dead(s: Seq<Bullet>, now: u64, width: u32, i: int)
    requires
        ids_increasing(s),
        0 <= i < s.len(),
        !live(s[i], now, width),
    ensures
        !contains_id(culled(s, now, width), s[i].id),
{
    lemma_culled_contains(s, now, width);
    lemma_culled_live(s, now, width);
    let c = culled(s, now, width);
    if contains_id(c, s[i].id) {
        let k = choose|k: int| 0 <= k < c.len() && c[k].id == s[i].id;
        let j = choose|j: int| 0 <= j < s.len() && s[j] == c[k];
        if j < i {
            assert(s[j].id < s[i].id);
        }
        if i < j {
            assert(s[i].id < s[j].id);
        }
        assert(j == i);
        assert(live(s[i], now, width));
        assert(false);
    }
}

/// Law: a later submit cannot resurrect a culled bullet. Appending a bullet
/// with a different identifier keeps an absent identifier absent, and
/// `submit` only ever appends identifiers never issued before.
pub proof fn lemma_push_no_new_id(s: Seq<Bullet>, b: Bullet, id: u64)
    requires
        !contains_id(s, id),
        b.id != id,
    ensures
        !contains_id(s.push(b), id),
{
    let p = s.push(b);
    if contains_id(p, id) {
        let i = choose|i: int| 0 <= i < p.len() && p[i].id == id;
        if i < s.len() {
            assert(s[i].id == id);
        } else {
            assert(p[i] == b);
        }
        assert(false);
    }
}

/// Law: a bullet spawned at the current time starts at the deterministic
/// baseline position `-START_OFFSET`, so an advance at its spawn time keeps
/// it (and touches nothing else).
pub proof fn lemma_spawn_baseline(s: Seq<Bullet>, b: Bullet, now: u64, width: u32)
    requires
        b.time == now,
    ensures
        x_of(b, now) == -(START_OFFSET as int),
        live(b, now, width),
        culled(s.push(b), now, width) == culled(s, now, width).push(b),
{
    assert(elapsed_of(now, b.time) == 0);
    assert(x_of(b, now) == -(START_OFFSET as int));
    let p = s.push(b);
    assert(p.drop_last() =~= s);
    assert(p.last() == b);
    assert(culled(p, now, width) == culled(s, now, width).push(b));
}

/// Culling a sequence whose bullets are all still inside the viewport keeps
/// it unchanged.
pub proof fn lemma_culled_of_all_live(s: Seq<Bullet>, now: u64, width: u32)
    requires
        forall|i: int| 0 <= i < s.len() ==> live(#[trigger] s[i], now, width),
    ensures
        culled(s, now, width) == s,
    decreases s.len(),
{
    if s.len() > 0 {
        let sp = s.drop_last();
        assert(forall|i: int| 0 <= i < sp.len() ==> sp[i] == s[i]);
        lemma_culled_of_all_live(sp, now, width);
        assert(culled(s, now, width) =~= s);
    }
}

/// Law: advancing is idempotent. A second `advance_and_cull` with the same
/// time and viewport width leaves the surviving set exactly as it was:
/// bullets only ever leave, never return.
pub proof fn lemma_cull_idempotent(s: Seq<Bullet>, now: u64, width: u32)
    ensures
        culled(culled(s, now, width), now, width) == culled(s, now, width),
{
    lemma_culled_live(s, now, width);
    lemma_culled_of_all_live(culled(s, now, width), now, width);
}

/// Law: after `clear` there is nothing to advance or draw: culling an empty
/// collection yields an empty collection, at every time and width.
pub proof fn lemma_cull_empty(now: u64, width: u32)
    ensures
        culled(Seq::<Bullet>::empty(), now, width) == Seq::<Bullet>::empty(),
{
}

} // verus!
