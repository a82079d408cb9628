use rand::Rng;
use sheng::dfa::{example_dfa, DfaError, TransitionTable, DFA};
use sheng::sheng::{compose, Sheng};
use sheng::table::{Table1, Table2};

fn generate_input(size: usize) -> Vec<u8> {
    let mut bytes = vec![0u8; size];
    rand::thread_rng().fill(&mut bytes[..]);
    bytes
}

fn ab<T: TransitionTable>(table: T) {
    // build
    let mut dfa = DFA::new(table);
    let mut input = generate_input(10_000);
    input[0] = b'h';
    input[1] = b'e';
    input[2] = b'l';
    input[3] = b'l';
    input[4] = b'o';

    let size = input.len();
    input[size - 5] = b'w';
    input[size - 4] = b'o';
    input[size - 3] = b'r';
    input[size - 2] = b'l';
    input[size - 1] = b'd';

    assert!(dfa.run(dfa.init, "helloworld".as_bytes()).unwrap() == 11);
    assert!(dfa.run(dfa.init, "".as_bytes()).unwrap() == 1);
    assert!(dfa.run(dfa.init, "hello........world".as_bytes()).unwrap() == 11);
    assert_eq!(dfa.run(dfa.init, "hello........world ".as_bytes()).unwrap(), 6);
    assert_eq!(dfa.run(dfa.init, &input).unwrap(), 11);
}

#[test]
fn ab_test() {
    let transitions = example_dfa();
    ab(Sheng::new(&transitions, 1).unwrap());
    ab(Table1::new(&transitions).unwrap());
    ab(Table2::new(&transitions).unwrap());
    ab(Sheng::new(&transitions, 2).unwrap());
}

#[test]
fn composition_law_scenario() {
    let transitions = example_dfa();
    let engines: Vec<Box<dyn Fn(u8, &[u8]) -> u8>> = {
        let t1 = Table1::new(&transitions).unwrap();
        let t2 = Table2::new(&transitions).unwrap();
        let s1 = Sheng::new(&transitions, 1).unwrap();
        let s4 = Sheng::new(&transitions, 4).unwrap();
        vec![
            Box::new(move |s, i| t1.run(s, i).unwrap()),
            Box::new(move |s, i| t2.run(s, i).unwrap()),
            Box::new(move |s, i| s1.run(s, i).unwrap()),
            Box::new(move |s, i| s4.run(s, i).unwrap()),
        ]
    };
    let x = b"hello...".as_slice();
    let y = b".....world".as_slice();
    let mut xy = x.to_vec();
    xy.extend_from_slice(y);
    for run in &engines {
        for s in 0..16u8 {
            let mid = run(s, x);
            assert_eq!(run(s, &xy), run(mid, y));
        }
    }
}

#[test]
fn cross_engine_equivalence() {
    let transitions = example_dfa();
    let t1 = Table1::new(&transitions).unwrap();
    let t2 = Table2::new(&transitions).unwrap();
    let s1 = Sheng::new(&transitions, 1).unwrap();
    let s4 = Sheng::new(&transitions, 4).unwrap();
    let input = generate_input(50_000);
    for s in 0..16u8 {
        let r = t1.run(s, &input).unwrap();
        assert_eq!(t2.run(s, &input).unwrap(), r);
        assert_eq!(s1.run(s, &input).unwrap(), r);
        assert_eq!(s4.run(s, &input).unwrap(), r);
    }
}

#[test]
fn identity_chunk() {
    let transitions = example_dfa();
    let engine = Sheng::new(&transitions, 1).unwrap();
    let r = engine.chunk_result(&[]);
    for (lane, &state) in r.iter().enumerate() {
        assert_eq!(state as usize, lane);
    }
}

#[test]
fn chunk_results_compose_to_full_run() {
    let transitions = example_dfa();
    let engine = Sheng::new(&transitions, 1).unwrap();
    let baseline = Table1::new(&transitions).unwrap();
    let input = generate_input(9_001);
    let full = baseline.run(1, &input).unwrap();

    // One chunk of a non-trivial input must not be the identity assignment.
    let first = engine.chunk_result(b"hello");
    assert_eq!(first[1], 6);
    assert_eq!(first[0], 0);
    assert_eq!(first[6], 6);
    assert_eq!(engine.chunk_result(b"world")[6], 11);

    let mut results = Vec::new();
    for chunk in input.chunks(3_000) {
        results.push(engine.chunk_result(chunk));
    }
    assert_eq!(compose(&results, 1), full);
    assert_eq!(compose(&Vec::new(), 9), 9);
}

#[test]
fn threshold_behavior() {
    let transitions = example_dfa();
    let chunked = Sheng::new(&transitions, 4).unwrap();
    let baseline = Table1::new(&transitions).unwrap();

    // Far below the minimum chunk size per worker: routed single-lane.
    let small = b"helloworld";
    assert_eq!(chunked.run(1, small).unwrap(), 11);
    assert_eq!(chunked.run(1, small).unwrap(), baseline.run(1, small).unwrap());

    // Large enough for every worker chunk: the chunked path must agree.
    let large = generate_input(64 * 1024);
    assert_eq!(chunked.run(1, &large).unwrap(), baseline.run(1, &large).unwrap());
}

#[test]
fn range_validation() {
    let mut bad = example_dfa();
    bad[3][7] = 16;
    assert!(matches!(Sheng::new(&bad, 1), Err(DfaError::InvalidState)));
    assert!(matches!(Table1::new(&bad), Err(DfaError::InvalidState)));
    assert!(matches!(Table2::new(&bad), Err(DfaError::InvalidState)));
    assert!(matches!(Sheng::with_default(16, 1), Err(DfaError::InvalidState)));
    assert!(matches!(Table1::with_default(255), Err(DfaError::InvalidState)));
    assert!(matches!(Table2::with_default(16), Err(DfaError::InvalidState)));

    let transitions = example_dfa();
    let engine = Sheng::new(&transitions, 1).unwrap();
    assert_eq!(engine.run(16, b"abc"), Err(DfaError::InvalidState));
    assert_eq!(engine.run(255, b""), Err(DfaError::InvalidState));
    let mut engine = Sheng::with_default(0, 1).unwrap();
    assert_eq!(engine.set_succ(16, 0, 0), Err(DfaError::InvalidState));
    assert_eq!(engine.set_succ(0, 0, 16), Err(DfaError::InvalidState));

    let t1 = Table1::new(&transitions).unwrap();
    assert_eq!(t1.run(16, b"abc"), Err(DfaError::InvalidState));
    let t2 = Table2::new(&transitions).unwrap();
    assert_eq!(t2.run(16, b"abc"), Err(DfaError::InvalidState));
}

#[test]
fn out_of_range_transition() {
    let mut t1 = Table1::with_default(0).unwrap();
    assert_eq!(t1.set_succ(16, b'a', 1), Err(DfaError::OutOfRangeTransition));
    assert_eq!(t1.set_succ(1, b'a', 16), Err(DfaError::OutOfRangeTransition));
    let mut t2 = Table2::with_default(0).unwrap();
    assert_eq!(t2.set_succ(16, b'a', 1), Err(DfaError::OutOfRangeTransition));
    assert_eq!(t2.set_succ(1, b'a', 16), Err(DfaError::OutOfRangeTransition));
}

#[test]
fn incremental_construction_matches_bulk() {
    // The same two-transition automaton, built incrementally on each engine.
    let mut t1 = Table1::with_default(0).unwrap();
    let mut t2 = Table2::with_default(0).unwrap();
    let mut sh = Sheng::with_default(0, 1).unwrap();
    for (src, sym, dst) in [(1u8, b'a', 2u8), (2, b'b', 3)] {
        t1.set_succ(src, sym, dst).unwrap();
        t2.set_succ(src, sym, dst).unwrap();
        sh.set_succ(src, sym, dst).unwrap();
    }

    let mut bulk = [[0u8; 256]; 16];
    bulk[1][b'a' as usize] = 2;
    bulk[2][b'b' as usize] = 3;
    let reference = Table1::new(&bulk).unwrap();

    for input in [b"ab".as_slice(), b"a", b"ba", b"abb", b""] {
        let expected = reference.run(1, input).unwrap();
        assert_eq!(t1.run(1, input).unwrap(), expected);
        assert_eq!(t2.run(1, input).unwrap(), expected);
        assert_eq!(sh.run(1, input).unwrap(), expected);
    }
    assert_eq!(reference.run(1, b"ab").unwrap(), 3);
    assert_eq!(reference.run(1, b"ax").unwrap(), 0);
}

#[test]
fn example_dfa_cells() {
    let t = example_dfa();
    assert_eq!(t[1][b'h' as usize], 2);
    assert_eq!(t[2][b'e' as usize], 3);
    assert_eq!(t[5][b'o' as usize], 6);
    assert_eq!(t[5][b'w' as usize], 7);
    assert_eq!(t[6][b'x' as usize], 6);
    assert_eq!(t[6][b'w' as usize], 7);
    assert_eq!(t[10][b'd' as usize], 11);
    assert_eq!(t[0][b'h' as usize], 0);
    assert_eq!(t[15][b'h' as usize], 0);
}

#[test]
fn wrapper_initial_state() {
    let transitions = example_dfa();
    let dfa = DFA::new(Table1::new(&transitions).unwrap());
    assert_eq!(dfa.init, 1);
}
