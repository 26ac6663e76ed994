use arena_core::api::{key_allowed, QueryString};
use arena_core::geom::{circles_collide, is_colliding, Triangle};
use arena_core::models::{BulletState, PlayerState};

#[test]
fn dev_mode_admits_any_key() {
    let keys: Vec<Vec<u8>> = vec![b"alpha".to_vec()];
    assert!(key_allowed(true, &keys, &b"anything".to_vec()));
}

#[test]
fn configured_key_is_admitted() {
    let keys: Vec<Vec<u8>> = vec![b"alpha".to_vec(), b"beta".to_vec()];
    assert!(key_allowed(false, &keys, &b"beta".to_vec()));
}

#[test]
fn unknown_key_is_rejected() {
    let keys: Vec<Vec<u8>> = vec![b"alpha".to_vec(), b"beta".to_vec()];
    assert!(!key_allowed(false, &keys, &b"gamma".to_vec()));
    assert!(!key_allowed(false, &keys, &b"alph".to_vec()));
}

#[test]
fn query_string_carries_key_and_name() {
    let q = QueryString { key: String::from("k"), name: String::from("n") };
    assert_eq!(q.key, "k");
    assert_eq!(q.name, "n");
}

#[test]
fn collision_test_is_strict_and_symmetric() {
    // Exactly touching circles (distance == radius sum) do not collide.
    assert!(!circles_collide(0, 0, 1000, 2000, 0, 1000));
    assert!(circles_collide(0, 0, 1000, 1999, 0, 1000));
    assert!(circles_collide(1999, 0, 1000, 0, 0, 1000));
}

#[test]
fn entities_collide_through_the_shared_capability() {
    let p = PlayerState { id: 1, x: 0, y: 0, dir_x: 1000, dir_y: 0, throttle: 0 };
    let b = BulletState { id: 0, player_id: 2, x: 1000, y: 0, dir_x: 0, dir_y: 0 };
    // Player radius 1000 plus bullet radius 250 exceeds the distance 1000.
    assert!(is_colliding(&p, &b));
    assert!(is_colliding(&b, &p));
    let far = BulletState { id: 1, player_id: 2, x: 5_000, y: 0, dir_x: 0, dir_y: 0 };
    assert!(!is_colliding(&p, &far));
    assert_eq!(p.radius(), 1000);
    assert_eq!(b.radius(), 250);
    assert_eq!(p.x(), 0);
    assert_eq!(b.y(), 0);
}
