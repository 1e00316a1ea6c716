use abes_nice_things::once::OnceLockMethod;

#[test]
fn get_returns_none_on_undefined() {
    let method = || -> String { return "Hello".to_string() };
    let lock: OnceLockMethod<String, _> = OnceLockMethod::new(&method);
    assert_eq!(lock.get(), None, "Lock had value on creation")
}

#[test]
fn get_returns_value_on_defined() {
    let value: bool = true;
    let method = || -> bool { return true };
    let mut lock: OnceLockMethod<bool, _> = OnceLockMethod::new(&method);
    lock.init();
    assert_eq!(lock.get(), Some(value), "Initial value and definition were inqeivalent")
}

#[test]
fn get_unsafe_pass_on_defined() {
    let value: usize = 5;
    let method = || -> usize { return 5 };
    let mut lock: OnceLockMethod<usize, _> = OnceLockMethod::new(&method);
    assert!(lock.unwrap_none(), "Lock had value on creation");
    lock.init();
    assert_eq!(lock.get_unsafe(), value, "Initial value and definition were inequivalent");
}

#[test]
fn get_or_init_creates_value_on_undefined() {
    let value: f32 = -27.6;
    let method = || -> f32 { return -27.6 };
    let mut lock: OnceLockMethod<f32, _> = OnceLockMethod::new(&method);
    assert!(lock.unwrap_none(), "Lock had value on creation");
    assert_eq!(lock.get_or_init(), value, "Initial value and definition were inequivalent");
}

#[test]
fn get_or_init_returns_value_on_defined() {
    let value: i16 = -35;
    let method = || -> i16 { return -35 };
    let mut lock: OnceLockMethod<i16, _> = OnceLockMethod::new(&method);
    assert!(lock.unwrap_none(), "Lock had value on creation");
    lock.init();
    assert_eq!(lock.get_or_init(), value, "Initial value and definition were ineqivalent");
}

#[test]
fn get_or_init_keeps_first_value() {
    let mut calls = 0u32;
    let counter = std::cell::Cell::new(0u32);
    let method = || -> u32 {
        counter.set(counter.get() + 1);
        counter.get()
    };
    let mut lock: OnceLockMethod<u32, _> = OnceLockMethod::new(&method);
    assert_eq!(lock.get_or_init(), 1);
    assert_eq!(lock.get_or_init(), 1);
    calls += counter.get();
    assert_eq!(calls, 1);
}
