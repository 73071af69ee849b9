//! The snake: a head, a tail of the cells it has just left, a direction, and
//! whether it is dead.
use vstd::prelude::*;

use heapless::spsc::Queue;

use crate::cell::{cell_at, Cell, GRID_HEIGHT, GRID_WIDTH};
use crate::direction::{step, turned, Direction, Turn};
use crate::food::Food;
use crate::tail_queue::{
    queue_cells, queue_dequeue, queue_enqueue, queue_new, queue_to_vec, TAIL_CAPACITY, TAIL_SLOTS,
};

verus! {

/// The cells that no move may make coincide: the tail without its oldest
/// cell, which the next move vacates, followed by the head.
pub open spec fn body_of(head: Cell, tail: Seq<Cell>) -> Seq<Cell> {
    if tail.len() == 0 {
        seq![head]
    } else {
        tail.drop_first().push(head)
    }
}

/// A head and a tail (oldest first) that a snake can have: every cell lies on
/// the grid, and no cell of `body_of` repeats.
pub open spec fn parts_ok(head: Cell, tail: Seq<Cell>) -> bool {
    &&& head.wf()
    &&& forall|i: int| 0 <= i < tail.len() ==> (#[trigger] tail[i]).wf()
    &&& body_of(head, tail).no_duplicates()
}

/// The cell one step from `head` in `direction`.
pub open spec fn step_from(head: Cell, direction: Direction) -> Cell {
    cell_at(head.x + step(direction).0, head.y + step(direction).1)
}

/// Moving into `c` runs into the tail: `c` is a tail cell other than the
/// oldest one.
pub open spec fn hits_tail(tail: Seq<Cell>, c: Cell) -> bool {
    exists|i: int| 1 <= i < tail.len() && tail[i] == c
}

/// The tail after a move that does not collide: the old head joins the back,
/// and the oldest cell leaves unless the snake eats.
pub open spec fn grown_tail(tail: Seq<Cell>, head: Cell, eats: bool) -> Seq<Cell> {
    if eats {
        tail.push(head)
    } else {
        tail.push(head).drop_first()
    }
}

/// The mathematical value of a snake: its head, its tail (oldest first), its
/// direction and whether it is dead.
pub struct SnakeModel {
    pub head: Cell,
    pub tail: Seq<Cell>,
    pub direction: Direction,
    pub dead: bool,
}

impl SnakeModel {
    /// The snake's parts are well formed (see `parts_ok`).
    pub open spec fn wf(self) -> bool {
        parts_ok(self.head, self.tail)
    }

    /// The cell that the head moves into next.
    pub open spec fn next_head(self) -> Cell {
        step_from(self.head, self.direction)
    }

    /// The snake after a turn: only a live snake changes direction.
    pub open spec fn turned(self, t: Turn) -> SnakeModel {
        if self.dead {
            self
        } else {
            SnakeModel { direction: turned(self.direction, t), ..self }
        }
    }

    /// The snake after one move towards food at `food`: a dead snake stays; a
    /// snake that would run into its tail dies where it stands; otherwise the
    /// old head joins the tail, which keeps its oldest cell only if the snake
    /// eats, and the head moves.
    pub open spec fn slithered(self, food: Cell) -> SnakeModel {
        if self.dead {
            self
        } else if hits_tail(self.tail, self.next_head()) {
            SnakeModel { dead: true, ..self }
        } else {
            SnakeModel {
                head: self.next_head(),
                tail: grown_tail(self.tail, self.head, self.next_head() == food),
                ..self
            }
        }
    }
}

/// The snake at the start of a game.
pub open spec fn initial_snake() -> SnakeModel {
    SnakeModel {
        head: Cell { x: 2, y: 2 },
        tail: Seq::empty(),
        direction: Direction::East,
        dead: false,
    }
}

/// The snake. Once dead, it never moves or turns again.
pub struct Snake {
    pub head: Cell,
    pub tail: Queue<Cell, TAIL_SLOTS>,
    pub direction: Direction,
    pub dead: bool,
}

impl View for Snake {
    type V = SnakeModel;

    open spec fn view(&self) -> SnakeModel {
        SnakeModel {
            head: self.head,
            tail: queue_cells(self.tail),
            direction: self.direction,
            dead: self.dead,
        }
    }
}

impl Snake {
    /// The snake's parts are well formed (see `parts_ok`).
    pub open spec fn wf(&self) -> bool {
        self@.wf()
    }

    /// A live snake at (2, 2), facing East, with an empty tail.
    pub fn new() -> (s: Snake)
        ensures
            s@ == initial_snake(),
            s.wf(),
    {
        let s = Snake {
            head: Cell::new(2, 2),
            tail: queue_new(),
            direction: Direction::East,
            dead: false,
        };
        assert(s@.tail =~= Seq::<Cell>::empty());
        assert(body_of(s.head, s@.tail) =~= seq![s.head]);
        s
    }

    /// A snake with the given parts, if they are well formed (see `parts_ok`).
    pub fn from_parts(head: Cell, tail: &Vec<Cell>, direction: Direction, dead: bool) -> (r:
        Option<Snake>)
        ensures
            r is Some <==> parts_ok(head, tail@),
            r is Some ==> r->Some_0@ == (SnakeModel { head, tail: tail@, direction, dead }),
    {
        if !parts_are_ok(head, tail) {
            return None;
        }
        proof {
            lemma_tail_fits(head, tail@);
        }
        let mut q = queue_new();
        let mut i: usize = 0;
        while i < tail.len()
            invariant
                i <= tail@.len(),
                tail@.len() < TAIL_CAPACITY,
                queue_cells(q) == tail@.subrange(0, i as int),
            decreases tail.len() - i,
        {
            let _ = queue_enqueue(&mut q, tail[i]);
            assert(tail@.subrange(0, i + 1) =~= tail@.subrange(0, i as int).push(tail@[i as int]));
            i = i + 1;
        }
        assert(tail@.subrange(0, tail@.len() as int) =~= tail@);
        Some(Snake { head, tail: q, direction, dead })
    }

    /// The tail's cells, oldest first.
    pub fn tail_cells(&self) -> (v: Vec<Cell>)
        ensures
            v@ == self@.tail,
    {
        queue_to_vec(&self.tail)
    }

    /// Turns the snake while it is alive; a dead snake keeps its direction.
    pub fn turn(&mut self, turn: Turn)
        ensures
            final(self)@ == old(self)@.turned(turn),
    {
        if !self.dead {
            self.direction = self.direction.with_turn(turn);
        }
    }

    /// Advances a live snake one cell towards `food` (see `SnakeModel::slithered`).
    pub fn slither(&mut self, food: &Food)
        requires
            old(self).wf(),
        ensures
            final(self).wf(),
            final(self)@ == old(self)@.slithered(food.cell),
    {
        if self.dead {
            return;
        }
        let new_head = self.head.with_direction(self.direction);
        let cells = queue_to_vec(&self.tail);
        let mut i: usize = 1;
        while i < cells.len()
            invariant
                *self == *old(self),
                self.wf(),
                !self.dead,
                new_head == self@.next_head(),
                cells@ == self@.tail,
                1 <= i,
                forall|j: int| 1 <= j < i && j < cells@.len() ==> cells@[j] != new_head,
            decreases cells.len() - i,
        {
            if cells[i] == new_head {
                self.dead = true;
                return;
            }
            i = i + 1;
        }
        let ghost old_tail = self@.tail;
        let ghost old_head = self.head;
        proof {
            lemma_tail_fits(self.head, old_tail);
            lemma_step_moves(self.head, self.direction);
            lemma_move_keeps_parts_ok(old_head, old_tail, new_head, new_head == food.cell);
        }
        let _ = queue_enqueue(&mut self.tail, self.head);
        if new_head != food.cell {
            let _ = queue_dequeue(&mut self.tail);
        }
        self.head = new_head;
    }
}

/// Whether a head and a tail are well formed (see `parts_ok`).
pub fn parts_are_ok(head: Cell, tail: &Vec<Cell>) -> (r: bool)
    ensures
        r == parts_ok(head, tail@),
{
    if !(head.x < GRID_WIDTH && head.y < GRID_HEIGHT) {
        return false;
    }
    let mut i: usize = 0;
    while i < tail.len()
        invariant
            i <= tail@.len(),
            forall|j: int| 0 <= j < i ==> (#[trigger] tail@[j]).wf(),
        decreases tail.len() - i,
    {
        if !(tail[i].x < GRID_WIDTH && tail[i].y < GRID_HEIGHT) {
            return false;
        }
        i = i + 1;
    }
    let mut body: Vec<Cell> = Vec::new();
    let mut k: usize = 1;
    while k < tail.len()
        invariant
            1 <= k,
            tail@.len() > 0 ==> k <= tail@.len(),
            body@ == if tail@.len() == 0 {
                Seq::<Cell>::empty()
            } else {
                tail@.subrange(1, k as int)
            },
        decreases tail.len() - k,
    {
        body.push(tail[k]);
        assert(tail@.subrange(1, k + 1) =~= tail@.subrange(1, k as int).push(tail@[k as int]));
        k = k + 1;
    }
    let ghost before = body@;
    body.push(head);
    if tail.len() > 0 {
        assert(before =~= tail@.drop_first());
    }
    assert(body@ =~= body_of(head, tail@));
    no_repeats(&body)
}

/// Whether no cell occurs twice in `cells`.
fn no_repeats(cells: &Vec<Cell>) -> (r: bool)
    ensures
        r == cells@.no_duplicates(),
{
    let mut i: usize = 0;
    while i < cells.len()
        invariant
            i <= cells@.len(),
            forall|a: int, b: int| 0 <= a < i && 0 <= b < cells@.len() && a != b
                ==> cells@[a] != cells@[b],
        decreases cells.len() - i,
    {
        let mut j: usize = 0;
        while j < cells.len()
            invariant
                i < cells@.len(),
                j <= cells@.len(),
                forall|a: int, b: int| 0 <= a < i && 0 <= b < cells@.len() && a != b
                    ==> cells@[a] != cells@[b],
                forall|b: int| 0 <= b < j && b != i ==> cells@[i as int] != cells@[b],
            decreases cells.len() - j,
        {
            if j != i && cells[i] == cells[j] {
                return false;
            }
            j = j + 1;
        }
        i = i + 1;
    }
    true
}

/// A live snake facing East whose next cell is free moves its head one step
/// East, wrapping at the edge, and its tail keeps its length unless it eats.
pub proof fn lemma_slither_steps_east(s: SnakeModel, food: Cell)
    requires
        s.wf(),
        !s.dead,
        s.direction == Direction::East,
        !hits_tail(s.tail, s.next_head()),
    ensures
        s.slithered(food).head == cell_at(s.head.x + 1, s.head.y as int),
        s.slithered(food).tail.len() == s.tail.len() + if s.next_head() == food {
            1int
        } else {
            0int
        },
{
}

/// From the start of a game, one move takes the head from (2, 2) to (3, 2);
/// the tail stays empty unless the food lies at (3, 2).
pub proof fn lemma_first_slither(food: Cell)
    ensures
        initial_snake().slithered(food).head == (Cell { x: 3, y: 2 }),
        initial_snake().slithered(food).tail.len() == if food == (Cell { x: 3, y: 2 }) {
            1int
        } else {
            0int
        },
        !initial_snake().slithered(food).dead,
{
    assert(initial_snake().next_head() == (Cell { x: 3, y: 2 }));
}

/// A live snake whose next cell is a tail cell other than the oldest dies
/// where it stands: its head and tail do not change.
pub proof fn lemma_self_collision(s: SnakeModel, food: Cell)
    requires
        !s.dead,
        hits_tail(s.tail, s.next_head()),
    ensures
        s.slithered(food).dead,
        s.slithered(food).head == s.head,
        s.slithered(food).tail == s.tail,
{
}

/// A live snake that moves onto the food grows by one cell, and its old head
/// is the newest cell of its tail.
pub proof fn lemma_eating_grows(s: SnakeModel, food: Cell)
    requires
        !s.dead,
        !hits_tail(s.tail, s.next_head()),
        s.next_head() == food,
    ensures
        s.slithered(food).tail.len() == s.tail.len() + 1,
        s.slithered(food).tail.last() == s.head,
        s.slithered(food).tail.contains(s.head),
{
    let t = s.slithered(food).tail;
    assert(t[t.len() - 1] == s.head);
}

/// A dead snake neither turns nor moves.
pub proof fn lemma_dead_is_final(s: SnakeModel, food: Cell, t: Turn)
    requires
        s.dead,
    ensures
        s.slithered(food) == s,
        s.turned(t) == s,
{
}

/// A move to a fresh cell keeps a snake's parts well formed.
proof fn lemma_move_keeps_parts_ok(head: Cell, tail: Seq<Cell>, nh: Cell, eats: bool)
    requires
        parts_ok(head, tail),
        nh.wf(),
        nh != head,
        !hits_tail(tail, nh),
    ensures
        parts_ok(nh, grown_tail(tail, head, eats)),
{
    let b = body_of(head, tail);
    let t2 = grown_tail(tail, head, eats);
    assert forall|i: int| 0 <= i < b.len() implies b[i] != nh by {
        if tail.len() > 0 && i < b.len() - 1 {
            assert(b[i] == tail[i + 1]);
        }
    }
    if tail.len() == 0 {
        if eats {
            assert(t2.drop_first() =~= Seq::<Cell>::empty());
        } else {
            assert(t2 =~= Seq::<Cell>::empty());
        }
        assert(body_of(nh, t2) =~= seq![nh]);
    } else if eats {
        assert(t2.drop_first() =~= b);
        assert(body_of(nh, t2) =~= b.push(nh));
    } else {
        assert(t2 =~= b);
        assert(body_of(nh, t2) =~= b.drop_first().push(nh));
    }
    assert(body_of(nh, t2).no_duplicates());
    assert forall|i: int| 0 <= i < t2.len() implies (#[trigger] t2[i]).wf() by {
        if eats {
            if i < tail.len() {
                assert(t2[i] == tail[i]);
            }
        } else {
            if i + 1 < tail.len() {
                assert(t2[i] == tail[i + 1]);
            }
        }
    }
}

/// One step always leaves the cell.
proof fn lemma_step_moves(c: Cell, d: Direction)
    requires
        c.wf(),
    ensures
        step_from(c, d) != c,
        step_from(c, d).wf(),
{
    crate::cell::lemma_cell_at_periodic(c.x + step(d).0, c.y + step(d).1, 0);
}

/// Distinct cells of the grid number at most its size.
proof fn lemma_distinct_cells_fit(s: Seq<Cell>)
    requires
        s.no_duplicates(),
        forall|i: int| 0 <= i < s.len() ==> (#[trigger] s[i]).wf(),
    ensures
        s.len() <= GRID_WIDTH * GRID_HEIGHT,
{
    let codes = s.map_values(|c: Cell| c.y * GRID_WIDTH + c.x);
    assert forall|i: int, j: int| 0 <= i < codes.len() && 0 <= j < codes.len() && i != j
        implies codes[i] != codes[j] by {
        let a = s[i];
        let b = s[j];
        assert(a.wf() && b.wf());
        assert(a != b);
        if a.y == b.y {
            assert(a.x != b.x);
        } else {
            assert(a.y * 5 + a.x != b.y * 5 + b.x) by (nonlinear_arith)
                requires
                    a.y != b.y,
                    a.x < 5,
                    b.x < 5,
            ;
        }
    }
    assert(codes.no_duplicates());
    codes.unique_seq_to_set();
    let range = vstd::set_lib::set_int_range(0, GRID_WIDTH * GRID_HEIGHT);
    vstd::set_lib::lemma_int_range(0, GRID_WIDTH * GRID_HEIGHT);
    assert forall|k: int| codes.to_set().contains(k) implies range.contains(k) by {
        let i = choose|i: int| 0 <= i < codes.len() && codes[i] == k;
        let c = s[i];
        assert(c.wf());
        assert(0 <= c.y * 5 + c.x < 25) by (nonlinear_arith)
            requires
                c.x < 5,
                c.y < 5,
        ;
    }
    vstd::set_lib::lemma_len_subset(codes.to_set(), range);
}

/// A well-formed tail is never longer than the grid's size, so it always has
/// room for one more cell in its queue.
proof fn lemma_tail_fits(head: Cell, tail: Seq<Cell>)
    requires
        parts_ok(head, tail),
    ensures
        tail.len() <= GRID_WIDTH * GRID_HEIGHT,
        tail.len() < TAIL_CAPACITY,
{
    let b = body_of(head, tail);
    assert forall|i: int| 0 <= i < b.len() implies (#[trigger] b[i]).wf() by {
        if tail.len() > 0 && i < b.len() - 1 {
            assert(b[i] == tail[i + 1]);
        }
    }
    lemma_distinct_cells_fit(b);
}

} // verus!
