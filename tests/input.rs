use scene_engine::input::{movement, HeldKeys, Movement};

#[test]
fn keys_are_held_in_lower_case() {
    let mut keys = HeldKeys::new();
    keys.press("A");
    assert!(keys.is_held("a"));
    assert!(!keys.is_held("A"));
    keys.press("Shift");
    assert!(keys.is_held("shift"));
    keys.release("SHIFT");
    assert!(!keys.is_held("shift"));
    assert!(keys.is_held("a"));
}

#[test]
fn repeated_press_needs_one_release() {
    let mut keys = HeldKeys::new();
    keys.press("w");
    keys.press("w");
    keys.release("w");
    assert!(!keys.is_held("w"));
    keys.release("x");
    assert!(!keys.is_held("x"));
}

#[test]
fn movement_requires_pointer_lock() {
    let mut keys = HeldKeys::new();
    for k in ["a", "d", "w", "s", " ", "Shift", "r"] {
        keys.press(k);
    }
    let all = Movement {
        left: true,
        right: true,
        forward: true,
        backward: true,
        up: true,
        down: true,
        reset: true,
    };
    assert_eq!(movement(&keys, true), all);
    let unlocked = movement(&keys, false);
    assert_eq!(
        unlocked,
        Movement {
            left: false,
            right: false,
            forward: false,
            backward: false,
            up: false,
            down: false,
            reset: true,
        }
    );
}

#[test]
fn movement_of_single_keys() {
    let mut keys = HeldKeys::new();
    keys.press("W");
    let m = movement(&keys, true);
    assert!(m.forward && !m.backward && !m.left && !m.right && !m.up && !m.down && !m.reset);
    keys.release("w");
    keys.press(" ");
    let m = movement(&keys, true);
    assert!(m.up && !m.forward);
    assert_eq!(movement(&HeldKeys::new(), true), Movement {
        left: false,
        right: false,
        forward: false,
        backward: false,
        up: false,
        down: false,
        reset: false,
    });
}
