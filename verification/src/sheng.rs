//! The packed lookup-vector engine. The whole transition table lives in 256
//! sixteen-entry lookup vectors, one per byte value; one step of the
//! automaton is one parallel byte-remap of a 16-lane state register. Because
//! running a chunk from the identity assignment computes the chunk's entire
//! transition function at once, chunks can be scanned independently (for
//! instance by a worker pool) and their result vectors composed afterwards
//! in chunk order.

use vstd::prelude::*;

use crate::dfa::{
    grid_run, grid_set, grid_view, lemma_grid_run_in_range, lemma_grid_run_snoc,
    lemma_run_composition, symbol_major_view, valid_grid, DfaError, TransitionTable,
};

verus! {

/// Smallest per-worker chunk size below which dispatch overhead outweighs
/// the benefit of the chunked path: such calls run single-lane instead.
pub const MIN_CHUNK_PER_THREAD: usize = 1024;

/// Packed lookup-vector engine: `masks[b]` is the lookup vector for byte
/// value `b`, whose lane `s` holds the successor of state `s` on `b`.
pub struct Sheng {
    masks: [[u8; 16]; 256],
    threads: usize,
}

/// The parallel byte-remap: lane `l` of the result is the lookup vector's
/// entry at the index held in lane `l` of the state register. This is the
/// portable semantics of a hardware vector permute over 16 byte lanes.
fn remap(mask: &[u8; 16], reg: &[u8; 16]) -> (r: [u8; 16])
    requires
        forall|l: int| 0 <= l < 16 ==> reg@[l] < 16,
    ensures
        forall|l: int| 0 <= l < 16 ==> r@[l] == mask@[reg@[l] as int],
{
    let mut out = [0u8; 16];
    let mut l: usize = 0;
    while l < 16
        invariant
            l <= 16,
            forall|k: int| 0 <= k < 16 ==> reg@[k] < 16,
            forall|k: int| 0 <= k < l ==> out@[k] == mask@[reg@[k] as int],
        decreases 16 - l,
    {
        out[l] = mask[reg[l] as usize];
        l += 1;
    }
    out
}

/// The identity assignment: lane `l` holds state `l`.
fn identity_reg() -> (r: [u8; 16])
    ensures
        forall|l: int| 0 <= l < 16 ==> r@[l] as int == l,
{
    let mut out = [0u8; 16];
    let mut l: usize = 0;
    while l < 16
        invariant
            l <= 16,
            forall|k: int| 0 <= k < l ==> out@[k] as int == k,
        decreases 16 - l,
    {
        out[l] = l as u8;
        l += 1;
    }
    out
}

impl Sheng {
    /// Packs an existing dense state-major grid into lookup vectors; fails
    /// with `InvalidState` exactly when some cell names a state `>= 16`,
    /// since only 16 lanes exist. `threads` is the number of workers the
    /// chunked path assumes.
    pub fn new(transitions: &[[u8; 256]; 16], threads: usize) -> (r: Result<Sheng, DfaError>)
        requires
            threads >= 1,
        ensures
            r is Ok <==> valid_grid(grid_view(*transitions)),
            r matches Ok(e) ==> e.table() == grid_view(*transitions),
            r is Err ==> r == Err::<Sheng, DfaError>(DfaError::InvalidState),
    {
        let mut masks = [[0u8; 16]; 256];
        let mut s: usize = 0;
        while s < 16
            invariant
                s <= 16,
                forall|i: int, j: int|
                    0 <= i < s && 0 <= j < 256 ==> (#[trigger] masks@[j]@[i]) == transitions@[i]@[j]
                        && masks@[j]@[i] < 16,
            decreases 16 - s,
        {
            let mut c: usize = 0;
            while c < 256
                invariant
                    s < 16,
                    c <= 256,
                    forall|i: int, j: int|
                        0 <= i < s && 0 <= j < 256 ==> (#[trigger] masks@[j]@[i])
                            == transitions@[i]@[j] && masks@[j]@[i] < 16,
                    forall|j: int|
                        0 <= j < c ==> (#[trigger] masks@[j]@[s as int])
                            == transitions@[s as int]@[j] && masks@[j]@[s as int] < 16,
                decreases 256 - c,
            {
                let v: u8 = transitions[s][c];
                if v >= 16 {
                    proof {
                        assert(grid_view(*transitions)[s as int][c as int] >= 16);
                    }
                    return Err(DfaError::InvalidState);
                }
                let mut row = masks[c];
                row[s] = v;
                masks[c] = row;
                c += 1;
            }
            s += 1;
        }
        let e = Sheng { masks, threads };
        proof {
            assert(e.table() =~~= grid_view(*transitions));
        }
        Ok(e)
    }

    /// An engine where every `(state, symbol)` pair maps to `default_state`;
    /// fails with `InvalidState` exactly when `default_state >= 16`.
    pub fn with_default(default_state: u8, threads: usize) -> (r: Result<Sheng, DfaError>)
        requires
            threads >= 1,
        ensures
            r is Ok <==> default_state < 16,
            r matches Ok(e) ==> valid_grid(e.table()) && forall|s: int, b: int|
                0 <= s < 16 && 0 <= b < 256 ==> (#[trigger] e.table()[s][b]) == default_state,
            r is Err ==> r == Err::<Sheng, DfaError>(DfaError::InvalidState),
    {
        if default_state >= 16 {
            return Err(DfaError::InvalidState);
        }
        let masks = [[default_state; 16]; 256];
        Ok(Sheng { masks, threads })
    }

    /// Redirects the single transition `(src, symbol)` to `dst`; fails with
    /// `InvalidState` exactly when `src` or `dst` is outside the 16-state
    /// range that the packed representation can hold.
    pub fn set_succ(&mut self, src: u8, symbol: u8, dst: u8) -> (r: Result<(), DfaError>)
        ensures
            src < 16 && dst < 16 ==> r == Ok::<(), DfaError>(()) && final(self).table()
                == grid_set(old(self).table(), src, symbol, dst) && (valid_grid(old(self).table())
                ==> valid_grid(final(self).table())),
            !(src < 16 && dst < 16) ==> r == Err::<(), DfaError>(DfaError::InvalidState)
                && *final(self) == *old(self),
    {
        if src >= 16 || dst >= 16 {
            return Err(DfaError::InvalidState);
        }
        let mut row = self.masks[symbol as usize];
        row[src as usize] = dst;
        self.masks[symbol as usize] = row;
        proof {
            assert(self.table() =~~= grid_set(old(self).table(), src, symbol, dst));
        }
        Ok(())
    }

    /// The remap loop over `input[start..end]`: lane `l` of the result is
    /// the state reached from the state initially held in lane `l`.
    fn run_range(&self, reg0: [u8; 16], input: &[u8], start: usize, end: usize) -> (r: [u8; 16])
        requires
            valid_grid(self.table()),
            start <= end <= input@.len(),
            forall|l: int| 0 <= l < 16 ==> reg0@[l] < 16,
        ensures
            forall|l: int|
                0 <= l < 16 ==> (#[trigger] r@[l]) == grid_run(
                    self.table(),
                    reg0@[l],
                    input@.subrange(start as int, end as int),
                ) && r@[l] < 16,
    {
        let ghost g = self.table();
        let mut reg = reg0;
        let mut j: usize = start;
        while j < end
            invariant
                valid_grid(g),
                g == self.table(),
                start <= j <= end <= input@.len(),
                forall|l: int| 0 <= l < 16 ==> (#[trigger] reg0@[l]) < 16,
                forall|l: int|
                    0 <= l < 16 ==> (#[trigger] reg@[l]) == grid_run(
                        g,
                        reg0@[l],
                        input@.subrange(start as int, j as int),
                    ) && reg@[l] < 16,
            decreases end - j,
        {
            let b: u8 = input[j];
            let mask = self.masks[b as usize];
            let next = remap(&mask, &reg);
            proof {
                assert forall|l: int| 0 <= l < 16 implies (#[trigger] next@[l]) == grid_run(
                    g,
                    reg0@[l],
                    input@.subrange(start as int, (j + 1) as int),
                ) && next@[l] < 16 by {
                    assert(reg0@[l] < 16);
                    lemma_grid_run_snoc(g, reg0@[l], input@.subrange(start as int, j as int), b);
                    assert(input@.subrange(start as int, j as int).push(b) =~= input@.subrange(
                        start as int,
                        (j + 1) as int,
                    ));
                    assert(g[reg@[l] as int][b as int] == mask@[reg@[l] as int]);
                }
            }
            reg = next;
            j += 1;
        }
        reg
    }

    /// The chunk transition-function vector of `input`: entry `i` is the
    /// exit state reached after scanning the whole of `input` starting from
    /// state `i`, for every `i` at once, obtained by running the remap loop
    /// from the identity assignment. The vector produced from an empty chunk
    /// is the identity assignment itself.
    pub fn chunk_result(&self, input: &[u8]) -> (r: [u8; 16])
        requires
            valid_grid(self.table()),
        ensures
            r@ == chunk_vec(self.table(), input@),
            forall|l: int|
                0 <= l < 16 ==> (#[trigger] r@[l]) == grid_run(self.table(), l as u8, input@)
                    && r@[l] < 16,
            input@.len() == 0 ==> forall|l: int| 0 <= l < 16 ==> (#[trigger] r@[l]) as int == l,
    {
        let id = identity_reg();
        let r = self.run_range(id, input, 0, input.len());
        proof {
            assert(input@.subrange(0, input@.len() as int) =~= input@);
            assert forall|l: int| 0 <= l < 16 implies (#[trigger] r@[l]) == grid_run(
                self.table(),
                l as u8,
                input@,
            ) by {
                assert(id@[l] == l as u8);
            }
            assert(r@ =~= chunk_vec(self.table(), input@));
        }
        r
    }

    /// Single-lane run: lane 0 of the register carries the one trajectory
    /// that starts at `s`; the other lanes are unused in this mode.
    fn run_single(&self, s: u8, input: &[u8]) -> (r: u8)
        requires
            valid_grid(self.table()),
            s < 16,
        ensures
            r == grid_run(self.table(), s, input@),
    {
        let mut reg = [0u8; 16];
        reg[0] = s;
        let out = self.run_range(reg, input, 0, input.len());
        proof {
            assert(input@.subrange(0, input@.len() as int) =~= input@);
        }
        out[0]
    }

    /// Chunked run: partitions the input into contiguous chunks in input
    /// order, computes each chunk's transition-function vector from the
    /// identity assignment, and composes the vectors in chunk order starting
    /// from the true entry state. Inputs whose per-worker chunk would fall
    /// below [`MIN_CHUNK_PER_THREAD`] run single-lane instead and return the
    /// same state.
    fn run_chunked(&self, s: u8, input: &[u8]) -> (r: u8)
        requires
            valid_grid(self.table()),
            s < 16,
            self.threads() >= 2,
        ensures
            r == grid_run(self.table(), s, input@),
    {
        let threads: usize = self.threads;
        if input.len() / MIN_CHUNK_PER_THREAD < threads {
            return self.run_single(s, input);
        }
        proof {
            vstd::arithmetic::div_mod::lemma_div_is_ordered_by_denominator(
                input.len() as int,
                2,
                threads as int,
            );
        }
        let chunk_size: usize = input.len() / threads + 1;
        let ghost g = self.table();
        let id = identity_reg();
        let mut s_cur: u8 = s;
        let mut i: usize = 0;
        while i < input.len()
            invariant
                valid_grid(g),
                g == self.table(),
                s < 16,
                s_cur < 16,
                chunk_size >= 1,
                i <= input@.len(),
                input@.len() == input.len(),
                s_cur == grid_run(g, s, input@.take(i as int)),
                forall|l: int| 0 <= l < 16 ==> (#[trigger] id@[l]) as int == l,
            decreases input@.len() - i,
        {
            let end = if chunk_size < input.len() - i {
                i + chunk_size
            } else {
                input.len()
            };
            let rvec = self.run_range(id, input, i, end);
            proof {
                lemma_run_composition(
                    g,
                    s,
                    input@.take(i as int),
                    input@.subrange(i as int, end as int),
                );
                assert(input@.take(i as int) + input@.subrange(i as int, end as int)
                    =~= input@.take(end as int));
                assert(id@[s_cur as int] as int == s_cur as int);
                assert(id@[s_cur as int] == s_cur);
            }
            s_cur = rvec[s_cur as usize];
            i = end;
        }
        proof {
            assert(input@.take(input@.len() as int) =~= input@);
        }
        s_cur
    }

    /// The number of workers the chunked path assumes.
    pub closed spec fn threads(&self) -> int {
        self.threads as int
    }
}

impl TransitionTable for Sheng {
    closed spec fn table(&self) -> Seq<Seq<u8>> {
        symbol_major_view(self.masks)
    }

    fn run(&self, s: u8, input: &[u8]) -> (r: Result<u8, DfaError>) {
        if s >= 16 {
            return Err(DfaError::InvalidState);
        }
        if self.threads <= 1 {
            Ok(self.run_single(s, input))
        } else {
            Ok(self.run_chunked(s, input))
        }
    }
}

/// The transition-function vector of one chunk at specification level:
/// entry `i` is the state reached over the chunk from entry state `i`.
pub open spec fn chunk_vec(g: Seq<Seq<u8>>, chunk: Seq<u8>) -> Seq<u8> {
    Seq::new(16, |i: int| grid_run(g, i as u8, chunk))
}

/// The chunked protocol is exact: composing the transition-function vectors
/// of consecutive chunks, in chunk order and starting from the true entry
/// state, ends in the same state as one direct run over the concatenated
/// input. This is why chunks may be scanned independently and out of order
/// before the serial composition scan.
pub proof fn lemma_chunk_composition(g: Seq<Seq<u8>>, s: u8, chunks: Seq<Seq<u8>>)
    requires
        valid_grid(g),
        s < 16,
    ensures
        compose_seq(chunks.map_values(|c: Seq<u8>| chunk_vec(g, c)), s) == grid_run(
            g,
            s,
            chunks.flatten(),
        ),
    decreases chunks.len(),
{
    let mapped = chunks.map_values(|c: Seq<u8>| chunk_vec(g, c));
    if chunks.len() == 0 {
        assert(chunks.flatten() =~= Seq::<u8>::empty());
    } else {
        let s1 = grid_run(g, s, chunks[0]);
        lemma_grid_run_in_range(g, s, chunks[0]);
        assert(mapped[0][s as int] == s1);
        assert(mapped.drop_first() =~= chunks.drop_first().map_values(
            |c: Seq<u8>| chunk_vec(g, c),
        ));
        lemma_chunk_composition(g, s1, chunks.drop_first());
        assert(chunks.flatten() == chunks.first() + chunks.drop_first().flatten());
        lemma_run_composition(g, s, chunks[0], chunks.drop_first().flatten());
    }
}

/// The serial composition scan over chunk transition-function vectors, in
/// chunk order: from the state reached so far, the next vector's entry at
/// that state is the state after that chunk.
pub open spec fn compose_seq(rs: Seq<Seq<u8>>, s: u8) -> u8
    decreases rs.len(),
{
    if rs.len() == 0 {
        s
    } else {
        compose_seq(rs.drop_first(), rs[0][s as int])
    }
}

/// Executes the serial composition scan over collected chunk result
/// vectors, starting from the entry state `s`.
pub fn compose(results: &Vec<[u8; 16]>, s: u8) -> (r: u8)
    requires
        s < 16,
        forall|k: int, l: int|
            0 <= k < results@.len() && 0 <= l < 16 ==> (#[trigger] results@[k]@[l]) < 16,
    ensures
        r == compose_seq(results@.map_values(|a: [u8; 16]| a@), s),
{
    let ghost rs = results@.map_values(|a: [u8; 16]| a@);
    let mut cur: u8 = s;
    let mut k: usize = 0;
    proof {
        assert(rs.skip(0) =~= rs);
    }
    while k < results.len()
        invariant
            rs == results@.map_values(|a: [u8; 16]| a@),
            forall|ki: int, l: int|
                0 <= ki < results@.len() && 0 <= l < 16 ==> (#[trigger] results@[ki]@[l]) < 16,
            k <= results@.len(),
            cur < 16,
            compose_seq(rs, s) == compose_seq(rs.skip(k as int), cur),
        decreases results@.len() - k,
    {
        proof {
            assert(rs.skip(k as int).drop_first() =~= rs.skip((k + 1) as int));
            assert(rs.skip(k as int)[0] == rs[k as int]);
            assert(rs[k as int] == results@[k as int]@);
        }
        cur = results[k][cur as usize];
        k += 1;
    }
    proof {
        assert(rs.skip(results@.len() as int) =~= Seq::<Seq<u8>>::empty());
    }
    cur
}

} // verus!
