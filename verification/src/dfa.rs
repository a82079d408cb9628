//! The logical model shared by every engine: a transition grid over at most
//! 16 states and 256 byte symbols, the fold that runs it over an input, the
//! composition law that justifies chunked execution, and the capability
//! trait plus the automaton wrapper.

use vstd::prelude::*;

verus! {

/// Errors shared by all engines.
#[derive(Clone, Copy, Debug, PartialEq, Eq, Structural)]
pub enum DfaError {
    /// A state id `>= 16` was passed to construction or to `run`.
    InvalidState,
    /// `set_succ` was called with `src` or `dst` outside the valid range of
    /// the dense engine in use.
    OutOfRangeTransition,
}

/// A well-formed logical transition grid: 16 rows of 256 cells, state-major,
/// every cell a state id below 16 (so the grid is a total function
/// `State x Symbol -> State`).
pub open spec fn valid_grid(g: Seq<Seq<u8>>) -> bool {
    &&& g.len() == 16
    &&& forall|s: int| 0 <= s < 16 ==> (#[trigger] g[s]).len() == 256
    &&& forall|s: int, b: int| 0 <= s < 16 && 0 <= b < 256 ==> (#[trigger] g[s][b]) < 16
}

/// The logical view of a dense state-major grid.
pub open spec fn grid_view(t: [[u8; 256]; 16]) -> Seq<Seq<u8>> {
    Seq::new(16, |s: int| Seq::new(256, |b: int| t@[s]@[b]))
}

/// The logical state-major view of a dense symbol-major grid (256 rows of
/// 16 entries): the transpose of the physical layout.
pub open spec fn symbol_major_view(t: [[u8; 16]; 256]) -> Seq<Seq<u8>> {
    Seq::new(16, |s: int| Seq::new(256, |b: int| t@[b]@[s]))
}

/// The cell update performed by `set_succ`: exactly the cell `(src, symbol)`
/// of the logical grid changes to `dst`.
pub open spec fn grid_set(g: Seq<Seq<u8>>, src: u8, symbol: u8, dst: u8) -> Seq<Seq<u8>> {
    g.update(src as int, g[src as int].update(symbol as int, dst))
}

/// The state reached by folding the transition function `g` over `input`,
/// starting at `s`.
pub open spec fn grid_run(g: Seq<Seq<u8>>, s: u8, input: Seq<u8>) -> u8
    decreases input.len(),
{
    if input.len() == 0 {
        s
    } else {
        grid_run(g, g[s as int][input[0] as int], input.drop_first())
    }
}

/// Running a well-formed grid from a valid state ends in a valid state.
pub proof fn lemma_grid_run_in_range(g: Seq<Seq<u8>>, s: u8, input: Seq<u8>)
    requires
        valid_grid(g),
        s < 16,
    ensures
        grid_run(g, s, input) < 16,
    decreases input.len(),
{
    if input.len() > 0 {
        lemma_grid_run_in_range(g, g[s as int][input[0] as int], input.drop_first());
    }
}

/// Appending one byte to the input takes one more transition step.
pub proof fn lemma_grid_run_snoc(g: Seq<Seq<u8>>, s: u8, input: Seq<u8>, b: u8)
    requires
        valid_grid(g),
        s < 16,
    ensures
        grid_run(g, s, input.push(b)) == g[grid_run(g, s, input) as int][b as int],
    decreases input.len(),
{
    reveal_with_fuel(grid_run, 2);
    if input.len() == 0 {
        assert(input.push(b)[0] == b);
        assert(input.push(b).drop_first() =~= Seq::<u8>::empty());
    } else {
        assert(input.push(b)[0] == input[0]);
        assert(input.push(b).drop_first() =~= input.drop_first().push(b));
        lemma_grid_run_snoc(g, g[s as int][input[0] as int], input.drop_first(), b);
    }
}

/// Composition law: running over a concatenation equals running over the
/// first part and then, from the state it reached, over the second. This is
/// what lets chunk transition functions, computed independently, be composed
/// afterwards.
pub proof fn lemma_run_composition(g: Seq<Seq<u8>>, s: u8, x: Seq<u8>, y: Seq<u8>)
    requires
        valid_grid(g),
        s < 16,
    ensures
        grid_run(g, s, x + y) == grid_run(g, grid_run(g, s, x), y),
    decreases x.len(),
{
    if x.len() == 0 {
        assert(x + y =~= y);
    } else {
        assert((x + y).drop_first() =~= x.drop_first() + y);
        lemma_run_composition(g, g[s as int][x[0] as int], x.drop_first(), y);
    }
}

/// Two grids that agree cell by cell run to the same state on every input.
pub proof fn lemma_equal_grids_run_equal(ga: Seq<Seq<u8>>, gb: Seq<Seq<u8>>, s: u8, input: Seq<u8>)
    requires
        valid_grid(ga),
        valid_grid(gb),
        s < 16,
        forall|st: int, by: int| 0 <= st < 16 && 0 <= by < 256 ==> ga[st][by] == gb[st][by],
    ensures
        grid_run(ga, s, input) == grid_run(gb, s, input),
    decreases input.len(),
{
    if input.len() > 0 {
        lemma_equal_grids_run_equal(ga, gb, ga[s as int][input[0] as int], input.drop_first());
    }
}

/// Capability every engine implements: it realizes one logical transition
/// grid and can fold it over a byte slice.
pub trait TransitionTable: Sized {
    /// The logical state-major transition grid this engine realizes.
    spec fn table(&self) -> Seq<Seq<u8>>;

    /// Final state after folding the transition function over `input`
    /// starting at `s`; fails with `InvalidState` exactly when the starting
    /// state is out of range.
    fn run(&self, s: u8, input: &[u8]) -> (r: Result<u8, DfaError>)
        requires
            valid_grid(self.table()),
        ensures
            s < 16 ==> r == Ok::<u8, DfaError>(grid_run(self.table(), s, input@)),
            s >= 16 ==> r == Err::<u8, DfaError>(DfaError::InvalidState),
    ;
}

/// Cross-engine equivalence: two engines whose logical grids agree cell by
/// cell reach the identical final state for every start state and input.
/// Together with each engine's `run` contract this makes every conforming
/// implementation interchangeable.
pub proof fn lemma_cross_engine_equivalence<A: TransitionTable, B: TransitionTable>(
    a: &A,
    b: &B,
    s: u8,
    input: Seq<u8>,
)
    requires
        valid_grid(a.table()),
        valid_grid(b.table()),
        s < 16,
        forall|st: int, by: int| 0 <= st < 16 && 0 <= by < 256 ==> a.table()[st][by]
            == b.table()[st][by],
    ensures
        grid_run(a.table(), s, input) == grid_run(b.table(), s, input),
{
    lemma_equal_grids_run_equal(a.table(), b.table(), s, input);
}

/// Automaton wrapper: a fixed initial state (1 by convention) around one
/// table implementation. It is stateless between calls; callers thread the
/// current state through successive `run` invocations themselves.
pub struct DFA<T: TransitionTable> {
    pub init: u8,
    pub transitions: T,
}

impl<T: TransitionTable> DFA<T> {
    /// The logical grid of the wrapped engine.
    pub open spec fn table(&self) -> Seq<Seq<u8>> {
        self.transitions.table()
    }

    pub fn new(transitions: T) -> (r: Self)
        ensures
            r.init == 1,
            r.table() == transitions.table(),
    {
        Self { init: 1, transitions }
    }

    /// Delegates to the wrapped engine.
    pub fn run(&mut self, s: u8, input: &[u8]) -> (r: Result<u8, DfaError>)
        requires
            valid_grid(old(self).table()),
        ensures
            *final(self) == *old(self),
            s < 16 ==> r == Ok::<u8, DfaError>(grid_run(old(self).table(), s, input@)),
            s >= 16 ==> r == Err::<u8, DfaError>(DfaError::InvalidState),
    {
        self.transitions.run(s, input)
    }
}

/// The transition function of the example automaton: it matches the literal
/// `hello`, then an unbounded wildcard run, then the literal `world`;
/// state 0 is dead, state 1 is the initial state, state 11 means the whole
/// pattern has been seen, states 12 to 15 are reserved and unused.
pub open spec fn example_next(s: int, b: int) -> u8 {
    if s == 1 {
        if b == 'h' as int {
            2
        } else {
            0
        }
    } else if s == 2 {
        if b == 'e' as int {
            3
        } else {
            0
        }
    } else if s == 3 {
        if b == 'l' as int {
            4
        } else {
            0
        }
    } else if s == 4 {
        if b == 'l' as int {
            5
        } else {
            0
        }
    } else if s == 5 {
        if b == 'w' as int {
            7
        } else if b == 'o' as int {
            6
        } else {
            0
        }
    } else if 6 <= s <= 11 {
        if b == 'w' as int {
            7
        } else if s == 7 && b == 'o' as int {
            8
        } else if s == 8 && b == 'r' as int {
            9
        } else if s == 9 && b == 'l' as int {
            10
        } else if s == 10 && b == 'd' as int {
            11
        } else {
            6
        }
    } else {
        0
    }
}

/// Builds the dense state-major grid of the 11-state example automaton for
/// `hello`, wildcard run, `world`.
pub fn example_dfa() -> (t: [[u8; 256]; 16])
    ensures
        valid_grid(grid_view(t)),
        forall|s: int, b: int|
            0 <= s < 16 && 0 <= b < 256 ==> grid_view(t)[s][b] == example_next(s, b),
{
    let zero_row = [0u8; 256];
    let mut t = [zero_row; 16];

    let mut row = zero_row;
    row['h' as usize] = 2;
    t[1] = row;

    let mut row = zero_row;
    row['e' as usize] = 3;
    t[2] = row;

    let mut row = zero_row;
    row['l' as usize] = 4;
    t[3] = row;

    let mut row = zero_row;
    row['l' as usize] = 5;
    t[4] = row;

    let mut row = zero_row;
    row['o' as usize] = 6;
    row['w' as usize] = 7;
    t[5] = row;

    let mut wild = [6u8; 256];
    wild['w' as usize] = 7;
    t[6] = wild;
    t[11] = wild;

    let mut row = wild;
    row['o' as usize] = 8;
    t[7] = row;

    let mut row = wild;
    row['r' as usize] = 9;
    t[8] = row;

    let mut row = wild;
    row['l' as usize] = 10;
    t[9] = row;

    let mut row = wild;
    row['d' as usize] = 11;
    t[10] = row;

    t
}

} // verus!
