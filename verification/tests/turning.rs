use idioms::trinity::{Solver, Trinity};

#[test]
fn rotate_turns_by_one_place() {
    let mut t = Trinity { a: 1, b: 2, c: 3 };
    t.rotate();
    assert_eq!(t, Trinity { a: 2, b: 3, c: 1 });
    t.rotate();
    assert_eq!(t, Trinity { a: 3, b: 1, c: 2 });
    t.rotate();
    assert_eq!(t, Trinity { a: 1, b: 2, c: 3 });
}

#[test]
fn matches_compares_place_by_place() {
    let t = Trinity { a: "x", b: "y", c: "z" };
    assert!(t.matches(&Trinity { a: "x", b: "y", c: "z" }));
    assert!(!t.matches(&Trinity { a: "x", b: "y", c: "y" }));
    assert!(!t.matches(&Trinity { a: "y", b: "z", c: "x" }));
}

#[test]
fn resolve_turns_each_triple_into_line() {
    let mut s = Solver {
        expected: Trinity { a: 1, b: 2, c: 3 },
        unsolved: vec![
            Trinity { a: 1, b: 2, c: 3 },
            Trinity { a: 2, b: 1, c: 3 },
            Trinity { a: 2, b: 3, c: 1 },
            Trinity { a: 3, b: 1, c: 2 },
        ],
    };
    s.resolve();
    assert_eq!(s.expected, Trinity { a: 1, b: 2, c: 3 });
    assert_eq!(
        s.unsolved,
        vec![
            Trinity { a: 1, b: 2, c: 3 },
            Trinity { a: 2, b: 1, c: 3 },
            Trinity { a: 1, b: 2, c: 3 },
            Trinity { a: 1, b: 2, c: 3 },
        ]
    );
}

#[test]
fn resolve_of_nothing_does_nothing() {
    let mut s: Solver<u8> = Solver { expected: Trinity { a: 1, b: 2, c: 3 }, unsolved: vec![] };
    s.resolve();
    assert!(s.unsolved.is_empty());
}
