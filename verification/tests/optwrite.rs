use axbind::overlay::OptWrite;

#[test]
fn it_works() {}

#[derive(Debug)]
struct Tester {
    foo: Option<usize>,
    bar: Option<usize>,
}

impl Tester {
    fn overriden_by(self, other: Self) -> Self {
        Tester { foo: self.foo.overriden_by(other.foo), bar: self.bar.overriden_by(other.bar) }
    }
}

#[test]
fn lib_it_works() {
    let old = Tester { foo: Some(2), bar: Some(0) };
    let now = Tester { foo: None, bar: Some(35) };
    let bruh = old.overriden_by(now);
    assert_eq!(bruh.foo, Some(2));
    assert_eq!(bruh.bar, Some(35));
}
