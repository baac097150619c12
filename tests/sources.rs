use error_iter::{ChainedError, ErrorExt};

#[derive(Debug)]
enum Error {
    Nested(Box<Error>),
    Leaf,
}

impl std::fmt::Display for Error {
    fn fmt(&self, f: &mut std::fmt::Formatter<'_>) -> std::fmt::Result {
        match self {
            Error::Nested(inner) => f.write_str(&format!("Nested error: {}", inner)),
            Error::Leaf => f.write_str("Leaf error"),
        }
    }
}

impl ChainedError for Error {
    fn cause(&self) -> Option<&Error> {
        match self {
            Error::Nested(inner) => Some(inner),
            Error::Leaf => None,
        }
    }
}

fn three_deep() -> Error {
    Error::Nested(Box::new(Error::Nested(Box::new(Error::Leaf))))
}

#[test]
fn iter_sources_ok() {
    let error = three_deep();

    let mut iter = error.sources();

    assert_eq!((3, Some(3)), iter.size_hint());
    assert_eq!(
        "Nested error: Nested error: Leaf error".to_string(),
        iter.next().unwrap().to_string()
    );
    assert_eq!((2, Some(2)), iter.size_hint());
    assert_eq!(
        "Nested error: Leaf error".to_string(),
        iter.next().unwrap().to_string()
    );
    assert_eq!((1, Some(1)), iter.size_hint());
    assert_eq!("Leaf error".to_string(), iter.next().unwrap().to_string());
    assert_eq!((0, Some(0)), iter.size_hint());
    assert!(iter.next().is_none());
    assert_eq!((0, Some(0)), iter.size_hint());
    assert!(iter.next().is_none());
}

#[test]
fn causes_leave_the_error_out() {
    let error = three_deep();

    let mut iter = error.causes();

    assert_eq!((2, Some(2)), iter.size_hint());
    assert_eq!(
        "Nested error: Leaf error".to_string(),
        iter.next().unwrap().to_string()
    );
    assert_eq!((1, Some(1)), iter.size_hint());
    assert_eq!("Leaf error".to_string(), iter.next().unwrap().to_string());
    assert_eq!((0, Some(0)), iter.size_hint());
    assert!(iter.next().is_none());
    assert!(iter.next().is_none());
}

#[test]
fn walkers_yield_the_errors_themselves() {
    let error = three_deep();
    let inner = match &error {
        Error::Nested(inner) => &**inner,
        Error::Leaf => unreachable!(),
    };

    let mut iter = error.sources();
    assert!(std::ptr::eq(iter.next().unwrap(), &error));
    assert!(std::ptr::eq(iter.next().unwrap(), inner));

    let mut causes = error.causes();
    assert!(std::ptr::eq(causes.next().unwrap(), inner));
}

#[test]
fn single_error_chain() {
    let error = Error::Leaf;

    let mut iter = error.sources();
    assert_eq!((1, Some(1)), iter.size_hint());
    assert_eq!("Leaf error".to_string(), iter.next().unwrap().to_string());
    for _ in 0..5 {
        assert!(iter.next().is_none());
        assert_eq!((0, Some(0)), iter.size_hint());
    }
}

#[test]
fn single_error_has_no_causes() {
    let error = Error::Leaf;

    let mut iter = error.causes();
    assert_eq!((0, Some(0)), iter.size_hint());
    assert!(iter.next().is_none());
    assert!(iter.next().is_none());
}

#[test]
fn walkers_keep_their_own_position() {
    let error = three_deep();

    let mut first = error.sources();
    let mut second = error.sources();

    assert_eq!(
        "Nested error: Nested error: Leaf error".to_string(),
        first.next().unwrap().to_string()
    );
    assert_eq!(
        "Nested error: Leaf error".to_string(),
        first.next().unwrap().to_string()
    );
    assert_eq!((1, Some(1)), first.size_hint());
    assert_eq!((3, Some(3)), second.size_hint());
    assert_eq!(
        "Nested error: Nested error: Leaf error".to_string(),
        second.next().unwrap().to_string()
    );
    assert_eq!("Leaf error".to_string(), first.next().unwrap().to_string());
    assert!(first.next().is_none());
    assert_eq!((2, Some(2)), second.size_hint());
    assert_eq!(
        "Nested error: Leaf error".to_string(),
        second.next().unwrap().to_string()
    );
    assert_eq!("Leaf error".to_string(), second.next().unwrap().to_string());
    assert!(second.next().is_none());
}

#[test]
fn hint_counts_down_on_a_long_chain() {
    let mut error = Error::Leaf;
    for _ in 0..99 {
        error = Error::Nested(Box::new(error));
    }

    let mut iter = error.sources();
    for k in 0..100usize {
        assert_eq!((100 - k, Some(100 - k)), iter.size_hint());
        assert!(iter.next().is_some());
    }
    assert_eq!((0, Some(0)), iter.size_hint());
    assert!(iter.next().is_none());
    assert_eq!(99, error.causes().size_hint().0);
}
