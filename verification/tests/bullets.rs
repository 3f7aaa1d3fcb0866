use pick::bullet::BulletManager;
use pick::Size;

fn viewport() -> Size {
    Size { width: 800, height: 450 }
}

#[test]
fn submit_hello_at_origin() {
    let mut m = BulletManager::new();
    let id = m.submit("hello".to_string(), 0, viewport());
    assert_eq!(id, 0);
    assert_eq!(m.bullets.len(), 1);
    assert_eq!(m.bullets[0].msg, "hello");
    assert!(m.bullets[0].height < 350);
    assert!(100 <= m.bullets[0].speed && m.bullets[0].speed < 200);
    let frames = m.advance_and_cull(0, 800);
    assert_eq!(frames.len(), 1);
    assert_eq!(frames[0].x, -400);
    assert_eq!(frames[0].id, id);
    assert_eq!(frames[0].y, m.bullets[0].height);
    assert_eq!(frames[0].msg, "hello");
}

#[test]
fn spawn_ranges_hold_over_many_draws() {
    let mut m = BulletManager::new();
    for t in 0..20u64 {
        m.submit(format!("b{}", t), t, viewport());
    }
    for b in &m.bullets {
        assert!(100 <= b.speed && b.speed < 200);
        assert!(b.height < 350);
    }
}

#[test]
fn cull_is_monotonic() {
    let mut m = BulletManager::new();
    let id = m.submit("gone".to_string(), 0, viewport());
    // At t = 13 even the slowest bullet sits at 13 * 100 - 400 = 900 >= 800.
    let frames = m.advance_and_cull(13, 800);
    assert!(frames.is_empty());
    assert!(m.bullets.is_empty());
    // The bullet never reappears, whatever happens afterwards.
    let frames = m.advance_and_cull(14, 800);
    assert!(frames.is_empty());
    let id2 = m.submit("next".to_string(), 14, viewport());
    assert_ne!(id2, id);
    let frames = m.advance_and_cull(14, 800);
    assert_eq!(frames.len(), 1);
    assert_eq!(frames[0].id, id2);
}

#[test]
fn advance_is_idempotent() {
    let mut m = BulletManager::new();
    m.submit("a".to_string(), 0, viewport());
    m.submit("b".to_string(), 0, viewport());
    m.submit("c".to_string(), 0, viewport());
    let first = m.advance_and_cull(0, 800);
    let second = m.advance_and_cull(0, 800);
    assert_eq!(first.len(), second.len());
    for (f, s) in first.iter().zip(second.iter()) {
        assert_eq!(f.id, s.id);
        assert_eq!(f.x, s.x);
        assert_eq!(f.y, s.y);
        assert_eq!(f.msg, s.msg);
    }
}

#[test]
fn survivors_keep_insertion_order() {
    let mut m = BulletManager::new();
    let a = m.submit("a".to_string(), 0, viewport());
    let b = m.submit("b".to_string(), 0, viewport());
    let c = m.submit("c".to_string(), 0, viewport());
    let frames = m.advance_and_cull(0, 800);
    let ids: Vec<u64> = frames.iter().map(|f| f.id).collect();
    assert_eq!(ids, vec![a, b, c]);
}

#[test]
fn old_bullets_culled_young_ones_kept() {
    let mut m = BulletManager::new();
    m.submit("old".to_string(), 0, viewport());
    let young = m.submit("young".to_string(), 12, viewport());
    // At t = 12 the old bullet is at 12 * speed - 400 >= 800 and leaves; the
    // young one sits at the baseline -400.
    let frames = m.advance_and_cull(12, 800);
    assert_eq!(frames.len(), 1);
    assert_eq!(frames[0].id, young);
    assert_eq!(frames[0].x, -400);
    assert_eq!(m.bullets.len(), 1);
}

#[test]
fn empty_text_still_spawns() {
    let mut m = BulletManager::new();
    m.submit(String::new(), 0, viewport());
    let frames = m.advance_and_cull(0, 800);
    assert_eq!(frames.len(), 1);
    assert_eq!(frames[0].msg, "");
}

#[test]
fn clear_empties_and_submitting_still_works() {
    let mut m = BulletManager::new();
    m.submit("one".to_string(), 0, viewport());
    m.submit("two".to_string(), 0, viewport());
    m.clear();
    assert!(m.bullets.is_empty());
    let frames = m.advance_and_cull(0, 800);
    assert!(frames.is_empty());
    let id = m.submit("three".to_string(), 0, viewport());
    // Identifiers of cleared bullets are not reused.
    assert_eq!(id, 2);
    let frames = m.advance_and_cull(0, 800);
    assert_eq!(frames.len(), 1);
    assert_eq!(frames[0].msg, "three");
}

#[test]
fn resize_is_read_freshly() {
    let mut m = BulletManager::new();
    m.submit("b".to_string(), 0, viewport());
    // With a narrow viewport the same bullet is culled at t = 5 already:
    // 5 * speed - 400 >= 100 for every speed in range.
    let frames = m.advance_and_cull(5, 100);
    assert!(frames.is_empty());
    assert!(m.bullets.is_empty());
}
