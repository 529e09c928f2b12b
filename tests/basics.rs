use minimax_strategy::{actors, Actor, Window};

#[test]
fn test_cmp() {
    let v = vec![5, 2, 0, 9, 4, 3];
    let max = v.into_iter().max_by(|left, right| left.cmp(right));
    assert_eq!(Some(9), max);
}

#[test]
fn opponent_flips_and_is_an_involution() {
    assert_eq!(Actor::Second, Actor::First.opponent());
    assert_eq!(Actor::First, Actor::Second.opponent());
    for a in actors() {
        assert_eq!(a, a.opponent().opponent());
        assert_ne!(a, a.opponent());
    }
}

#[test]
fn actors_lists_first_then_second() {
    assert_eq!([Actor::First, Actor::Second], actors());
}

#[test]
fn window_try_new_rejects_inverted_bounds() {
    assert_eq!(Some(Window { min: 1, max: 3 }), Window::try_new(1, 3));
    assert_eq!(Some(Window { min: 2, max: 2 }), Window::try_new(2, 2));
    assert_eq!(None, Window::try_new(4, 3));
}

#[test]
fn window_new_keeps_bounds() {
    let w = Window::new(i64::MIN, i64::MAX);
    assert_eq!(i64::MIN, w.min);
    assert_eq!(i64::MAX, w.max);
}

#[test]
fn window_raise_min_narrows_or_cuts() {
    let w = Window::new(0, 10);
    assert_eq!(Some(Window { min: 5, max: 10 }), w.raise_min(5));
    assert_eq!(Some(Window { min: 0, max: 10 }), w.raise_min(-3));
    assert_eq!(Some(Window { min: 10, max: 10 }), w.raise_min(10));
    assert_eq!(None, w.raise_min(11));
}

#[test]
fn window_lower_max_narrows_or_cuts() {
    let w = Window::new(0, 10);
    assert_eq!(Some(Window { min: 0, max: 5 }), w.lower_max(5));
    assert_eq!(Some(Window { min: 0, max: 10 }), w.lower_max(12));
    assert_eq!(Some(Window { min: 0, max: 0 }), w.lower_max(0));
    assert_eq!(None, w.lower_max(-1));
}
