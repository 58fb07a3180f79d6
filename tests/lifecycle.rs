use median::{Class, ClockHandle, LifecycleError, MessageKind, Phase, RegistrationError, Wrapper};
use std::cell::{Cell, RefCell};

struct Simp {
    value: Cell<i64>,
    hits: Cell<u32>,
    clock: RefCell<ClockHandle>,
    clocked: Cell<u32>,
}

impl Simp {
    fn new() -> Self {
        Simp {
            value: Cell::new(0),
            hits: Cell::new(0),
            clock: RefCell::new(ClockHandle::new()),
            clocked: Cell::new(0),
        }
    }

    fn on_int(&self, v: i64) {
        self.value.set(v);
        self.hits.set(self.hits.get() + 1);
    }

    fn bang(&self, now: u64) -> Option<u64> {
        self.clock.borrow_mut().delay(now, 10)
    }

    fn timer_elapsed(&self, now: u64) {
        if self.clock.borrow_mut().fire(now) {
            self.clocked.set(self.clocked.get() + 1);
        }
    }
}

fn simp_class() -> Class {
    let mut c = Class::new("simp");
    c.add_method_int("int").unwrap();
    c.add_method_bang().unwrap();
    c
}

#[test]
fn class_registration() {
    let c = simp_class();
    assert_eq!(c.class_name(), "simp");
    assert_eq!(c.len(), 2);
    assert_eq!(c.lookup("int"), Some(MessageKind::Int));
    assert_eq!(c.lookup("bang"), Some(MessageKind::Bang));
    assert_eq!(c.lookup("float"), None);
    assert_eq!(c.method(0), ("int", MessageKind::Int));
    assert_eq!(c.method(1), ("bang", MessageKind::Bang));
}

#[test]
fn duplicate_selector_rejected() {
    let mut c = simp_class();
    assert_eq!(c.add_method_int("int"), Err(RegistrationError::DuplicateSelector));
    assert_eq!(c.add_method_bang(), Err(RegistrationError::DuplicateSelector));
    assert_eq!(c.add_method("bang", MessageKind::Int), Err(RegistrationError::DuplicateSelector));
    assert_eq!(c.len(), 2);
    assert_eq!(c.add_method("list", MessageKind::Int), Ok(()));
    assert_eq!(c.len(), 3);
}

#[test]
fn dispatch_before_construction_refused() {
    let w: Wrapper<Simp> = Wrapper::new();
    assert!(!w.is_live());
    assert!(matches!(w.wrapped(), Err(LifecycleError::NotConstructed)));
}

#[test]
fn construction_once() {
    let mut w: Wrapper<Simp> = Wrapper::new();
    assert_eq!(w.construct(Some(Simp::new())), Ok(()));
    assert!(w.is_live());
    assert_eq!(w.construct(Some(Simp::new())), Err(LifecycleError::AlreadyConstructed));
    assert!(w.is_live());
}

#[test]
fn construction_failure_leaves_no_object() {
    let mut w: Wrapper<Simp> = Wrapper::new();
    assert_eq!(w.construct(None), Err(LifecycleError::ConstructionFailure));
    assert!(matches!(w.wrapped(), Err(LifecycleError::ConstructionFailure)));
    assert_eq!(w.construct(Some(Simp::new())), Err(LifecycleError::AlreadyConstructed));
    assert!(matches!(w.destroy(), Ok(None)));
}

#[test]
fn destruction_once() {
    let mut w: Wrapper<Simp> = Wrapper::new();
    w.construct(Some(Simp::new())).unwrap();
    w.wrapped().unwrap().on_int(7);
    let obj = w.destroy().unwrap().unwrap();
    assert_eq!(obj.value.get(), 7);
    assert!(matches!(w.destroy(), Err(LifecycleError::Destroyed)));
    assert!(matches!(w.wrapped(), Err(LifecycleError::Destroyed)));
    assert_eq!(w.construct(Some(Simp::new())), Err(LifecycleError::Destroyed));
}

#[test]
fn repeated_dispatch_is_independent() {
    let mut w: Wrapper<Simp> = Wrapper::new();
    w.construct(Some(Simp::new())).unwrap();
    w.wrapped().unwrap().on_int(3);
    w.wrapped().unwrap().on_int(5);
    let obj = w.wrapped().unwrap();
    assert_eq!(obj.value.get(), 5);
    assert_eq!(obj.hits.get(), 2);
    assert!(w.is_live());
}

#[test]
fn end_to_end_simp() {
    let class = simp_class();
    let mut w: Wrapper<Simp> = Wrapper::new();
    w.construct(Some(Simp::new())).unwrap();

    assert_eq!(class.lookup("int"), Some(MessageKind::Int));
    w.wrapped().unwrap().on_int(42);
    assert_eq!(w.wrapped().unwrap().value.get(), 42);

    assert_eq!(class.lookup("bang"), Some(MessageKind::Bang));
    assert_eq!(w.wrapped().unwrap().bang(0), Some(10));
    assert_eq!(w.wrapped().unwrap().clock.borrow().pending(), Some(10));

    w.wrapped().unwrap().clock.borrow_mut().dispose();
    w.wrapped().unwrap().timer_elapsed(10);
    w.wrapped().unwrap().timer_elapsed(50);
    assert_eq!(w.wrapped().unwrap().clocked.get(), 0);

    let obj = w.destroy().unwrap().unwrap();
    assert_eq!(obj.clocked.get(), 0);
    assert_eq!(w.current_phase(), Phase::Destroyed);
}

#[test]
fn clock_reentry_fires_when_not_cancelled() {
    let mut w: Wrapper<Simp> = Wrapper::new();
    w.construct(Some(Simp::new())).unwrap();
    w.wrapped().unwrap().bang(100);
    w.wrapped().unwrap().timer_elapsed(105);
    assert_eq!(w.wrapped().unwrap().clocked.get(), 0);
    w.wrapped().unwrap().timer_elapsed(110);
    assert_eq!(w.wrapped().unwrap().clocked.get(), 1);
}
