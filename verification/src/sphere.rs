use rand_chacha::ChaCha8Rng;
use vstd::hash_map::StringHashMap;
use vstd::prelude::*;

use crate::rng::shuffle_cells;

verus! {

/// The cells `0, 1, ..., n - 1` in order.
pub open spec fn cell_range(n: nat) -> Seq<usize> {
    Seq::new(n, |i: int| i as usize)
}

/// Position of `cell` in `free` (meaningful when it occurs there).
pub open spec fn position_of(free: Seq<usize>, cell: usize) -> int {
    choose|i: int| 0 <= i < free.len() && free[i] == cell
}

/// What the portal placement is, seen from outside: how many cells the
/// sphere has, which cells are free (in the order they will be handed out,
/// last first), and which cell each resume token was last given.
pub struct PlacementModel {
    pub total: nat,
    pub free: Seq<usize>,
    pub tokens: Map<Seq<char>, usize>,
}

impl PlacementModel {
    /// The free list holds no cell twice.
    pub open spec fn wf(self) -> bool {
        self.free.no_duplicates()
    }

    /// Every free cell is a cell of the sphere (below the cell count).
    pub open spec fn cells_in_range(self) -> bool {
        forall|i: int| 0 <= i < self.free.len() ==> (#[trigger] self.free[i] as int) < self.total
    }

    /// The cell a token resumes: the one it was last given, if that cell is
    /// free again.
    pub open spec fn resumed_cell(self, token: Option<Seq<char>>) -> Option<usize> {
        match token {
            Some(t) => if self.tokens.contains_key(t) && self.free.contains(self.tokens[t]) {
                Some(self.tokens[t])
            } else {
                None
            },
            None => None,
        }
    }

    /// Allocating a cell: a resumed cell is taken out of the free list (the
    /// last free cell takes its place); otherwise the last free cell is
    /// handed out and, with a token, remembered for it.
    pub open spec fn allocate(self, token: Option<Seq<char>>) -> (PlacementModel, Option<usize>) {
        match self.resumed_cell(token) {
            Some(c) => {
                let i = position_of(self.free, c);
                (
                    PlacementModel {
                        free: self.free.update(i, self.free.last()).drop_last(),
                        ..self
                    },
                    Some(c),
                )
            },
            None => if self.free.len() == 0 {
                (self, None)
            } else {
                let c = self.free.last();
                (
                    PlacementModel {
                        free: self.free.drop_last(),
                        tokens: match token {
                            Some(t) => self.tokens.insert(t, c),
                            None => self.tokens,
                        },
                        ..self
                    },
                    Some(c),
                )
            },
        }
    }

    /// Releasing a cell puts it back at the end of the free list unless it
    /// is already free.
    pub open spec fn release(self, cell: usize) -> PlacementModel {
        if self.free.contains(cell) {
            self
        } else {
            PlacementModel { free: self.free.push(cell), ..self }
        }
    }
}


proof fn lemma_swap_remove_free(free: Seq<usize>, i: int)
    requires
        free.no_duplicates(),
        0 <= i < free.len(),
    ensures
        ({
            let r = free.update(i, free.last()).drop_last();
            &&& r.no_duplicates()
            &&& r.len() == free.len() - 1
            &&& !r.contains(free[i])
            &&& forall|x: usize| x != free[i] ==> (r.contains(x) <==> free.contains(x))
        }),
{
    let r = free.update(i, free.last()).drop_last();
    let last = free.len() - 1;
    assert forall|a: int, b: int| 0 <= a < r.len() && 0 <= b < r.len() && a != b implies r[a]
        != r[b] by {
        let la = if a == i { last } else { a };
        let lb = if b == i { last } else { b };
        assert(r[a] == free[la]);
        assert(r[b] == free[lb]);
    }
    if r.contains(free[i]) {
        let k = choose|k: int| 0 <= k < r.len() && r[k] == free[i];
        let lk = if k == i { last } else { k };
        assert(r[k] == free[lk]);
    }
    assert forall|x: usize| x != free[i] implies (r.contains(x) <==> free.contains(x)) by {
        if free.contains(x) {
            let k = choose|k: int| 0 <= k < free.len() && free[k] == x;
            if k == last {
                assert(r[i] == x);
            } else {
                assert(r[k] == x);
            }
        }
        if r.contains(x) {
            let k = choose|k: int| 0 <= k < r.len() && r[k] == x;
            let lk = if k == i { last } else { k };
            assert(free[lk] == x);
        }
    }
}

/// Allocation hands out a free cell and takes exactly that cell out of the
/// free list; it fails, changing nothing, only when no cell is free. The
/// free list keeps holding no cell twice and the cell count never changes.
pub proof fn lemma_allocate_takes_one_free_cell(m: PlacementModel, token: Option<Seq<char>>)
    requires
        m.wf(),
    ensures
        ({
            let (m2, cell) = m.allocate(token);
            &&& m2.wf()
            &&& m2.total == m.total
            &&& match cell {
                Some(c) => {
                    &&& m.free.contains(c)
                    &&& !m2.free.contains(c)
                    &&& m2.free.len() == m.free.len() - 1
                    &&& forall|x: usize| x != c ==> (m2.free.contains(x) <==> m.free.contains(x))
                },
                None => m.free.len() == 0 && m2 == m,
            }
        }),
{
    match m.resumed_cell(token) {
        Some(c) => {
            let k = choose|k: int| 0 <= k < m.free.len() && m.free[k] == c;
            lemma_position_of(m.free, k);
            lemma_swap_remove_free(m.free, k);
        },
        None => {
            if m.free.len() > 0 {
                let last = m.free.len() - 1;
                lemma_swap_remove_free(m.free, last);
                assert(m.free.update(last, m.free.last()).drop_last() =~= m.free.drop_last());
            }
        },
    }
}

/// Two allocations in a row never hand out the same cell.
pub proof fn lemma_allocations_are_distinct(
    m: PlacementModel,
    first: Option<Seq<char>>,
    second: Option<Seq<char>>,
)
    requires
        m.wf(),
        m.allocate(first).1 is Some,
        m.allocate(first).0.allocate(second).1 is Some,
    ensures
        m.allocate(first).1 != m.allocate(first).0.allocate(second).1,
{
    lemma_allocate_takes_one_free_cell(m, first);
    lemma_allocate_takes_one_free_cell(m.allocate(first).0, second);
}

/// A player who leaves and comes back with the same resume token gets the
/// same cell again, as long as nobody took it in between.
pub proof fn lemma_resume_token_reclaims_released_cell(m: PlacementModel, token: Seq<char>)
    requires
        m.wf(),
        m.allocate(Some(token)).1 is Some,
    ensures
        ({
            let (m1, cell) = m.allocate(Some(token));
            let m2 = m1.release(cell.unwrap());
            m2.allocate(Some(token)).1 == cell
        }),
{
    lemma_allocate_takes_one_free_cell(m, Some(token));
    let (m1, cell) = m.allocate(Some(token));
    let c = cell.unwrap();
    let m2 = m1.release(c);
    assert(m2.free.contains(c)) by {
        assert(m1.free.push(c)[m1.free.len() as int] == c);
    }
    assert(m2.tokens.contains_key(token) && m2.tokens[token] == c);
}

/// Releasing a cell makes it free; the free list grows by one exactly when
/// the cell was not free before, and no other cell changes.
pub proof fn lemma_release_frees_cell(m: PlacementModel, cell: usize)
    requires
        m.wf(),
    ensures
        ({
            let m2 = m.release(cell);
            &&& m2.wf()
            &&& m2.total == m.total
            &&& m2.free.contains(cell)
            &&& m2.free.len() == if m.free.contains(cell) { m.free.len() } else { m.free.len()
                + 1 }
            &&& forall|x: usize| x != cell ==> (m2.free.contains(x) <==> m.free.contains(x))
        }),
{
    let m2 = m.release(cell);
    if !m.free.contains(cell) {
        assert(m2.free[m.free.len() as int] == cell);
        assert forall|a: int, b: int|
            0 <= a < m2.free.len() && 0 <= b < m2.free.len() && a != b implies m2.free[a]
            != m2.free[b] by {
            if a == m.free.len() {
                assert(m2.free[b] == m.free[b]);
            } else if b == m.free.len() {
                assert(m2.free[a] == m.free[a]);
            }
        }
        assert forall|x: usize| x != cell implies (m2.free.contains(x) <==> m.free.contains(x)) by {
            if m2.free.contains(x) {
                let k = choose|k: int| 0 <= k < m2.free.len() && m2.free[k] == x;
                assert(m.free[k] == x);
            }
            if m.free.contains(x) {
                let k = choose|k: int| 0 <= k < m.free.len() && m.free[k] == x;
                assert(m2.free[k] == x);
            }
        }
    }
}

/// A released cell is the next one handed out to a player without a resume
/// token, and that allocation undoes the release.
pub proof fn lemma_release_then_allocate_undoes(m: PlacementModel, cell: usize)
    requires
        m.wf(),
        !m.free.contains(cell),
    ensures
        m.release(cell).allocate(None).1 == Some(cell),
        m.release(cell).allocate(None).0 == m,
{
    let m2 = m.release(cell);
    assert(m2.free.last() == cell);
    assert(m2.free.drop_last() =~= m.free);
}

/// A player who is seated without a resume token and then leaves puts the
/// placement back exactly as it was.
pub proof fn lemma_allocate_then_release_undoes(m: PlacementModel)
    requires
        m.wf(),
        m.free.len() > 0,
    ensures
        m.allocate(None).0.release(m.allocate(None).1.unwrap()) == m,
{
    let c = m.free.last();
    let m1 = m.allocate(None).0;
    assert(m1.free =~= m.free.drop_last());
    assert(!m1.free.contains(c)) by {
        if m1.free.contains(c) {
            let k = choose|k: int| 0 <= k < m1.free.len() && m1.free[k] == c;
            assert(m.free[k] == m.free[m.free.len() - 1]);
        }
    }
    assert(m1.free.push(c) =~= m.free);
}

/// Allocation keeps every free cell on the sphere, and the cell it hands
/// out is one of the sphere's cells.
pub proof fn lemma_allocate_stays_in_range(m: PlacementModel, token: Option<Seq<char>>)
    requires
        m.wf(),
        m.cells_in_range(),
    ensures
        m.allocate(token).0.cells_in_range(),
        m.allocate(token).1 matches Some(c) ==> (c as int) < m.total,
{
    lemma_allocate_takes_one_free_cell(m, token);
    let (m2, cell) = m.allocate(token);
    if let Some(c) = cell {
        let k = choose|k: int| 0 <= k < m.free.len() && m.free[k] == c;
        assert(m.free[k] == c);
    }
    assert forall|i: int| 0 <= i < m2.free.len() implies (#[trigger] m2.free[i] as int) < m2.total by {
        assert(m2.free.contains(m2.free[i]));
        assert(m.free.contains(m2.free[i]));
        let k = choose|k: int| 0 <= k < m.free.len() && m.free[k] == m2.free[i];
        assert(m.free[k] == m2.free[i]);
    }
}

/// Releasing a cell of the sphere keeps every free cell on the sphere.
pub proof fn lemma_release_stays_in_range(m: PlacementModel, cell: usize)
    requires
        m.cells_in_range(),
        (cell as int) < m.total,
    ensures
        m.release(cell).cells_in_range(),
{
    let m2 = m.release(cell);
    assert forall|i: int| 0 <= i < m2.free.len() implies (#[trigger] m2.free[i] as int) < m2.total by {
        if i < m.free.len() {
            assert(m2.free[i] == m.free[i]);
        }
    }
}

/// Hands out the cells of the sphere to players, one portal per cell.
pub struct PortalPlacement {
    total: usize,
    free_cells: Vec<usize>,
    token_to_cell: StringHashMap<usize>,
}

impl View for PortalPlacement {
    type V = PlacementModel;

    closed spec fn view(&self) -> PlacementModel {
        PlacementModel {
            total: self.total as nat,
            free: self.free_cells@,
            tokens: self.token_to_cell@,
        }
    }
}

proof fn lemma_cell_range_no_duplicates(n: nat)
    requires
        n <= usize::MAX,
    ensures
        cell_range(n).no_duplicates(),
{
    assert forall|a: int, b: int| 0 <= a < n && 0 <= b < n && a != b implies cell_range(n)[a]
        != cell_range(n)[b] by {
        assert(cell_range(n)[a] == a);
        assert(cell_range(n)[b] == b);
    }
}

proof fn lemma_permutation_keeps_no_duplicates(a: Seq<usize>, b: Seq<usize>)
    requires
        a.no_duplicates(),
        a.to_multiset() == b.to_multiset(),
    ensures
        b.no_duplicates(),
{
    a.lemma_multiset_has_no_duplicates();
    b.lemma_multiset_has_no_duplicates_conv();
}

proof fn lemma_position_of(free: Seq<usize>, i: int)
    requires
        free.no_duplicates(),
        0 <= i < free.len(),
    ensures
        position_of(free, free[i]) == i,
{
    let j = position_of(free, free[i]);
    assert(0 <= j < free.len() && free[j] == free[i]);
}

impl PortalPlacement {
    /// The well-formedness the placement keeps.
    pub open spec fn wf(&self) -> bool {
        self@.wf()
    }

    /// A placement over `cell_count` cells, all free, in a shuffled order.
    pub fn new(cell_count: usize, rng: &mut ChaCha8Rng) -> (p: Self)
        ensures
            p.wf(),
            p@.total == cell_count,
            p@.free.to_multiset() == cell_range(cell_count as nat).to_multiset(),
            p@.tokens == Map::<Seq<char>, usize>::empty(),
            p@.cells_in_range(),
            forall|c: usize| (c as int) < cell_count ==> #[trigger] p@.free.contains(c),
    {
        let mut free_cells: Vec<usize> = Vec::new();
        let mut i: usize = 0;
        while i < cell_count
            invariant
                i <= cell_count,
                free_cells@ == cell_range(i as nat),
            decreases cell_count - i,
        {
            free_cells.push(i);
            i = i + 1;
            assert(free_cells@ =~= cell_range(i as nat));
        }
        let ghost before = free_cells@;
        shuffle_cells(&mut free_cells, rng);
        proof {
            lemma_cell_range_no_duplicates(cell_count as nat);
            lemma_permutation_keeps_no_duplicates(before, free_cells@);
            let n = cell_count as nat;
            vstd::seq_lib::to_multiset_len(free_cells@);
            vstd::seq_lib::to_multiset_len(cell_range(n));
            assert forall|i: int| 0 <= i < free_cells@.len() implies (#[trigger] free_cells@[i] as int)
                < cell_count by {
                let x = free_cells@[i];
                assert(free_cells@.contains(x));
                vstd::seq_lib::to_multiset_contains(free_cells@, x);
                vstd::seq_lib::to_multiset_contains(cell_range(n), x);
                let k = choose|k: int| 0 <= k < n && cell_range(n)[k] == x;
            }
            assert forall|c: usize| (c as int) < cell_count implies #[trigger] free_cells@.contains(c) by {
                assert(cell_range(n)[c as int] == c);
                vstd::seq_lib::to_multiset_contains(cell_range(n), c);
                vstd::seq_lib::to_multiset_contains(free_cells@, c);
            }
        }
        PortalPlacement { total: cell_count, free_cells, token_to_cell: StringHashMap::new() }
    }

    /// Allocates a cell for a player. With a resume token whose earlier
    /// cell is free again, that cell comes back; otherwise the next free
    /// cell is handed out. `None` when every cell is taken.
    pub fn allocate(&mut self, resume_token: Option<&str>) -> (cell: Option<usize>)
        requires
            old(self).wf(),
        ensures
            final(self).wf(),
            (final(self)@, cell) == old(self)@.allocate(
                match resume_token {
                    Some(t) => Some(t@),
                    None => None,
                },
            ),
    {
        let ghost token = match resume_token {
            Some(t) => Some(t@),
            None => None::<Seq<char>>,
        };
        if let Some(token_str) = resume_token {
            if let Some(prev) = self.token_to_cell.get(token_str) {
                let prev_cell = *prev;
                let mut idx: usize = 0;
                let n = self.free_cells.len();
                while idx < n
                    invariant
                        n == self.free_cells@.len(),
                        idx <= n,
                        forall|j: int| 0 <= j < idx ==> self.free_cells@[j] != prev_cell,
                    ensures
                        idx <= n,
                        idx < n ==> self.free_cells@[idx as int] == prev_cell,
                        forall|j: int| 0 <= j < idx ==> self.free_cells@[j] != prev_cell,
                    decreases n - idx,
                {
                    if self.free_cells[idx] == prev_cell {
                        break;
                    }
                    idx = idx + 1;
                }
                if idx < n {
                    proof {
                        assert(self.free_cells@[idx as int] == prev_cell);
                        lemma_position_of(self.free_cells@, idx as int);
                    }
                    let ghost old_free = self.free_cells@;
                    self.free_cells.swap_remove(idx);
                    proof {
                        assert forall|a: int, b: int|
                            0 <= a < self.free_cells@.len() && 0 <= b < self.free_cells@.len()
                                && a != b implies self.free_cells@[a] != self.free_cells@[b] by {
                            let la = if a == idx { old_free.len() - 1 } else { a };
                            let lb = if b == idx { old_free.len() - 1 } else { b };
                            assert(self.free_cells@[a] == old_free[la]);
                            assert(self.free_cells@[b] == old_free[lb]);
                        }
                    }
                    return Some(prev_cell);
                } else {
                    proof {
                        assert(!self.free_cells@.contains(prev_cell));
                    }
                }
            }
        }
        let popped = self.free_cells.pop();
        match popped {
            None => None,
            Some(cell_index) => {
                if let Some(token_str) = resume_token {
                    self.token_to_cell.insert(token_str.to_owned(), cell_index);
                }
                proof {
                    assert(self@.free =~= old(self)@.free.drop_last());
                }
                Some(cell_index)
            },
        }
    }

    /// Releases a cell back to the pool; a cell that is already free stays
    /// where it is.
    pub fn release(&mut self, cell_index: usize)
        requires
            old(self).wf(),
        ensures
            final(self).wf(),
            final(self)@ == old(self)@.release(cell_index),
    {
        let n = self.free_cells.len();
        let mut idx: usize = 0;
        while idx < n
            invariant
                n == self.free_cells@.len(),
                idx <= n,
                self@ == old(self)@,
                self.wf(),
                forall|j: int| 0 <= j < idx ==> self.free_cells@[j] != cell_index,
            decreases n - idx,
        {
            if self.free_cells[idx] == cell_index {
                assert(self.free_cells@.contains(cell_index));
                return;
            }
            idx = idx + 1;
        }
        assert(!self.free_cells@.contains(cell_index));
        self.free_cells.push(cell_index);
        proof {
            assert forall|a: int, b: int|
                0 <= a < self.free_cells@.len() && 0 <= b < self.free_cells@.len() && a != b
                implies self.free_cells@[a] != self.free_cells@[b] by {
                if a == n as int {
                    assert(self.free_cells@[b] == old(self)@.free[b]);
                } else if b == n as int {
                    assert(self.free_cells@[a] == old(self)@.free[a]);
                }
            }
        }
    }

    /// Number of cells still free.
    pub fn available_count(&self) -> (n: usize)
        ensures
            n == self@.free.len(),
    {
        self.free_cells.len()
    }

    /// Number of cells on the sphere.
    pub fn total_count(&self) -> (n: usize)
        ensures
            n == self@.total,
    {
        self.total
    }
}

} // verus!
