use crate::grid::{
    grid_count, grid_view, lemma_grid_count_update, lemma_row_count_update, set_cell,
};
use vstd::prelude::*;

verus! {

/// An unrevealed empty cell.
pub open spec fn is_unrevealed() -> spec_fn(char) -> bool {
    |c: char| c == 'E'
}

/// What a digit cell of the revealed board may hold.
pub open spec fn is_count_char(c: char) -> bool {
    '1' <= c <= '8'
}

/// Whether the cell at `i`, `j` exists and holds a mine.
pub open spec fn is_mine_at(b: Seq<Seq<char>>, i: int, j: int) -> bool {
    0 <= i < b.len() && 0 <= j < b[i].len() && b[i][j] == 'M'
}

/// One when that cell holds a mine, else zero.
pub open spec fn mine_ind(b: Seq<Seq<char>>, i: int, j: int) -> int {
    if is_mine_at(b, i, j) {
        1
    } else {
        0
    }
}

/// How many of the up to eight neighbours of a cell hold mines.
pub open spec fn mine_count(b: Seq<Seq<char>>, i: int, j: int) -> int {
    mine_ind(b, i - 1, j - 1) + mine_ind(b, i - 1, j) + mine_ind(b, i - 1, j + 1) + mine_ind(
        b,
        i,
        j - 1,
    ) + mine_ind(b, i, j + 1) + mine_ind(b, i + 1, j - 1) + mine_ind(b, i + 1, j) + mine_ind(
        b,
        i + 1,
        j + 1,
    )
}

/// What revealing a cell writes into it: its neighbour-mine count as a digit,
/// or a blank when no mine is adjacent.
pub open spec fn reveal_char(b: Seq<Seq<char>>, i: int, j: int) -> char {
    if mine_count(b, i, j) > 0 {
        count_char(mine_count(b, i, j) as i32)
    } else {
        'B'
    }
}

/// What a click on an empty cell may do to the board: unrevealed cells - and
/// only those - take on exactly the value revealing them prescribes.
pub open spec fn only_revealed(pre: Seq<Seq<char>>, post: Seq<Seq<char>>) -> bool {
    &&& post.len() == pre.len()
    &&& forall|i: int| 0 <= i < pre.len() ==> (#[trigger] post[i]).len() == pre[i].len()
    &&& forall|i: int, j: int|
        #![trigger post[i][j]]
        0 <= i < pre.len() && 0 <= j < pre[i].len() && post[i][j] != pre[i][j] ==> pre[i][j] == 'E'
            && post[i][j] == reveal_char(pre, i, j)
}

/// Revealing never moves a mine, so a cell's neighbour-mine count stands.
proof fn lemma_mines_stable(pre: Seq<Seq<char>>, post: Seq<Seq<char>>, i: int, j: int)
    requires
        only_revealed(pre, post),
    ensures
        mine_count(post, i, j) == mine_count(pre, i, j),
{
    assert forall|a: int, b: int|
        #![trigger post[a][b]]
        0 <= a < pre.len() && 0 <= b < pre[a].len() implies (post[a][b] == 'M' <==> pre[a][b]
        == 'M') by {
        if post[a][b] != pre[a][b] {
            assert(pre[a][b] == 'E');
            assert(post[a][b] == reveal_char(pre, a, b));
        }
    }
}

/// A revealed value never reads as unrevealed or as a mine.
proof fn lemma_reveal_char_shape(b: Seq<Seq<char>>, i: int, j: int)
    ensures
        reveal_char(b, i, j) == 'B' || is_count_char(reveal_char(b, i, j)),
        reveal_char(b, i, j) != 'E',
        reveal_char(b, i, j) != 'M',
{
    assert(0 <= mine_count(b, i, j) <= 8);
}

/// Revealing some cells and then some more is still only revealing, with each
/// value still prescribed by the board the flood started from.
proof fn lemma_only_revealed_trans(a: Seq<Seq<char>>, b: Seq<Seq<char>>, c: Seq<Seq<char>>)
    requires
        only_revealed(a, b),
        only_revealed(b, c),
    ensures
        only_revealed(a, c),
{
    assert forall|i: int, j: int|
        #![trigger c[i][j]]
        0 <= i < a.len() && 0 <= j < a[i].len() && c[i][j] != a[i][j] implies a[i][j] == 'E' && c[i][j]
        == reveal_char(a, i, j) by {
        lemma_mines_stable(a, b, i, j);
        if b[i][j] != a[i][j] {
            assert(b[i][j] == reveal_char(a, i, j));
            lemma_reveal_char_shape(a, i, j);
            assert(c[i][j] == b[i][j]);
        } else {
            assert(c[i][j] != b[i][j]);
            assert(b[i][j] == 'E');
            assert(c[i][j] == reveal_char(b, i, j));
        }
    }
}

/// Every cell this click has revealed as a blank has no unrevealed neighbour
/// left: the flood has spread through every blank it uncovered.
pub open spec fn blanks_spread(pre: Seq<Seq<char>>, post: Seq<Seq<char>>) -> bool {
    forall|i: int, j: int, a: int, b: int|
        #![trigger post[i][j], post[a][b]]
        0 <= i < post.len() && 0 <= j < post[i].len() && pre[i][j] == 'E' && post[i][j] == 'B' && i
            - 1 <= a <= i + 1 && j - 1 <= b <= j + 1 && 0 <= a < post.len() && 0 <= b
            < post[a].len() ==> post[a][b] != 'E'
}

/// Mid-flood: every neighbour of a freshly revealed blank is either already
/// revealed or still waiting on the work stack.
pub open spec fn blanks_pending(
    pre: Seq<Seq<char>>,
    cur: Seq<Seq<char>>,
    stack: Seq<(usize, usize)>,
) -> bool {
    forall|i: int, j: int, a: int, b: int|
        #![trigger cur[i][j], cur[a][b]]
        0 <= i < cur.len() && 0 <= j < cur[i].len() && pre[i][j] == 'E' && cur[i][j] == 'B' && i - 1
            <= a <= i + 1 && j - 1 <= b <= j + 1 && 0 <= a < cur.len() && 0 <= b < cur[a].len()
            ==> cur[a][b] != 'E' || stack.contains((a as usize, b as usize))
}

/// What a stack holds it still holds after a push.
proof fn lemma_contains_after_push(s: Seq<(usize, usize)>, x: (usize, usize), y: (usize, usize))
    requires
        s.contains(y),
    ensures
        s.push(x).contains(y),
{
    let k = choose|k: int| 0 <= k < s.len() && s[k] == y;
    assert(s.push(x)[k] == y);
}

/// What a stack holds besides its top it still holds after the pop.
proof fn lemma_contains_drop_last_other(s: Seq<(usize, usize)>, y: (usize, usize))
    requires
        s.len() > 0,
        s.contains(y),
        y != s.last(),
    ensures
        s.drop_last().contains(y),
{
    let k = choose|k: int| 0 <= k < s.len() && s[k] == y;
    assert(s.drop_last()[k] == y);
}

/// One flood step keeps every revealed blank's neighbourhood pending or done:
/// the popped cell is revealed (or already was), what else the stack held is
/// still held, and a freshly revealed blank has its whole box swept.
proof fn lemma_pending_step(
    b0: Seq<Seq<char>>,
    top: Seq<Seq<char>>,
    cur: Seq<Seq<char>>,
    stack_top: Seq<(usize, usize)>,
    new_stack: Seq<(usize, usize)>,
    pi: int,
    pj: int,
)
    requires
        blanks_pending(b0, top, stack_top),
        cur.len() <= usize::MAX,
        forall|k: int| 0 <= k < cur.len() ==> (#[trigger] cur[k]).len() <= usize::MAX,
        cur.len() == top.len(),
        forall|k: int| 0 <= k < cur.len() ==> (#[trigger] cur[k]).len() == top[k].len(),
        0 <= pi < cur.len(),
        0 <= pj < cur[pi].len(),
        forall|i: int, j: int|
            #![trigger cur[i][j]]
            0 <= i < cur.len() && 0 <= j < cur[i].len() && !(i == pi && j == pj) ==> cur[i][j]
                == top[i][j],
        cur[pi][pj] != 'E',
        stack_top.len() > 0,
        stack_top.last() == ((pi as usize), (pj as usize)),
        forall|y: (usize, usize)|
            stack_top.drop_last().contains(y) ==> #[trigger] new_stack.contains(y),
        (b0[pi][pj] == 'E' && cur[pi][pj] == 'B' && cur[pi][pj] != top[pi][pj]) ==> forall|
            a: int,
            b: int,
        |
            #![trigger cur[a][b]]
            pi - 1 <= a <= pi + 1 && pj - 1 <= b <= pj + 1 && 0 <= a < cur.len() && 0 <= b
                < cur[a].len() ==> cur[a][b] != 'E' || new_stack.contains(
                ((a as usize), (b as usize)),
            ),
    ensures
        blanks_pending(b0, cur, new_stack),
{
    assert forall|i: int, j: int, a: int, b: int|
        #![trigger cur[i][j], cur[a][b]]
        0 <= i < cur.len() && 0 <= j < cur[i].len() && b0[i][j] == 'E' && cur[i][j] == 'B' && i - 1
            <= a <= i + 1 && j - 1 <= b <= j + 1 && 0 <= a < cur.len() && 0 <= b
            < cur[a].len() implies cur[a][b] != 'E' || new_stack.contains(
        ((a as usize), (b as usize)),
    ) by {
        if i == pi && j == pj && cur[i][j] != top[i][j] {
            // the blank revealed this very step: the box sweep covers it
            let cab = cur[a][b];
            assert(cab != 'E' || new_stack.contains(((a as usize), (b as usize))));
        } else {
            assert(cur[i].len() == top[i].len());
            assert(cur[a].len() == top[a].len());
            assert(cur[i][j] == top[i][j]);
            assert(top[i][j] == 'B');
            let tab = top[a][b];
            assert(tab != 'E' || stack_top.contains(((a as usize), (b as usize))));
            if tab != 'E' {
                if a == pi && b == pj {
                    assert(cur[a][b] != 'E');
                } else {
                    assert(cur[a][b] == top[a][b]);
                }
            } else {
                assert(stack_top.contains(((a as usize), (b as usize))));
                if ((a as usize), (b as usize)) == stack_top.last() {
                    assert(a == pi && b == pj);
                    assert(cur[a][b] != 'E');
                } else {
                    lemma_contains_drop_last_other(stack_top, ((a as usize), (b as usize)));
                    assert(new_stack.contains(((a as usize), (b as usize))));
                }
            }
        }
    }
}

/// Plays one click of minesweeper. Clicking a mine marks it 'X' and changes
/// nothing else; clicking a revealed cell changes nothing; clicking an
/// unrevealed cell reveals it and floods outward: every cell that changes was
/// unrevealed and takes exactly the value revealing it prescribes - its true
/// neighbour-mine count as a digit, or a blank where no mine is near - and
/// the flood runs to completion: no blank it revealed still touches an
/// unrevealed cell.
pub fn update_board(board: Vec<Vec<char>>, click: Vec<i32>) -> (r: Vec<Vec<char>>)
    requires
        board@.len() > 0,
        forall|i: int| 0 <= i < board@.len() ==> (#[trigger] board@[i])@.len() == board@[0]@.len(),
        click@.len() >= 2,
        0 <= click@[0] < board@.len(),
        0 <= click@[1] < board@[0]@.len(),
    ensures
        board@[click@[0] as int]@[click@[1] as int] == 'M' ==> grid_view(r@) == grid_view(
            board@,
        ).update(
            click@[0] as int,
            board@[click@[0] as int]@.update(click@[1] as int, 'X'),
        ),
        board@[click@[0] as int]@[click@[1] as int] == 'E' ==> only_revealed(
            grid_view(board@),
            grid_view(r@),
        ) && grid_view(r@)[click@[0] as int][click@[1] as int] != 'E' && blanks_spread(
            grid_view(board@),
            grid_view(r@),
        ),
        board@[click@[0] as int]@[click@[1] as int] != 'M' && board@[click@[0] as int]@[click@[1] as int]
            != 'E' ==> r@ == board@,
{
    let rows = board.len();
    let cols = board[0].len();
    let ci = click[0] as usize;
    let cj = click[1] as usize;
    let mut board = board;
    let ghost b0 = grid_view(board@);
    proof {
        assert(forall|k: int| 0 <= k < rows ==> b0[k] == (#[trigger] board@[k])@);
    }
    let cell = board[ci][cj];
    if cell == 'M' {
        set_cell(&mut board, ci, cj, 'X');
        return board;
    }
    if cell != 'E' {
        return board;
    }
    let mut stack: Vec<(usize, usize)> = Vec::new();
    stack.push((ci, cj));
    proof {
        assert(blanks_pending(b0, grid_view(board@), stack@));
    }
    while stack.len() > 0
        invariant
            board@.len() == rows,
            rows == b0.len() > 0,
            ci < rows,
            cj < cols,
            forall|k: int| 0 <= k < rows ==> (#[trigger] board@[k])@.len() == cols,
            forall|k: int| 0 <= k < rows ==> b0[k].len() == cols,
            only_revealed(b0, grid_view(board@)),
            blanks_pending(b0, grid_view(board@), stack@),
            forall|k: int|
                0 <= k < stack@.len() ==> (#[trigger] stack@[k]).0 < rows && stack@[k].1 < cols,
            grid_view(board@)[ci as int][cj as int] != 'E' || (stack@.len() == 1 && stack@[0] == (
            ci,
            cj,
            )),
        decreases grid_count(grid_view(board@), is_unrevealed()), stack@.len(),
    {
        let ghost top = grid_view(board@);
        let ghost stack_top = stack@;
        let cur_pos = stack.pop().unwrap();
        let ghost stack_mid = stack@;
        let (pi, pj) = cur_pos;
        proof {
            assert(forall|k: int|
                0 <= k < board@.len() ==> grid_view(board@)[k] == (#[trigger] board@[k])@);
        }
        if board[pi][pj] == 'E' {
            let ghost pre = grid_view(board@);
            let bomb_num = get_bomb_num(&board, pi, pj);
            proof {
                lemma_row_count_update(board@[pi as int]@, pj as int, 'B', is_unrevealed());
                lemma_row_count_update(
                    board@[pi as int]@,
                    pj as int,
                    count_char(bomb_num),
                    is_unrevealed(),
                );
                lemma_grid_count_update(
                    pre,
                    pi as int,
                    board@[pi as int]@.update(pj as int, 'B'),
                    is_unrevealed(),
                );
                lemma_grid_count_update(
                    pre,
                    pi as int,
                    board@[pi as int]@.update(pj as int, count_char(bomb_num)),
                    is_unrevealed(),
                );
            }
            if bomb_num > 0 {
                let c = count_to_char(bomb_num);
                set_cell(&mut board, pi, pj, c);
                proof {
                    assert(forall|k: int|
                        0 <= k < board@.len() ==> grid_view(board@)[k] == (#[trigger] board@[k])@);
                    assert(reveal_char(pre, pi as int, pj as int) == count_char(bomb_num));
                    assert(grid_view(board@) == pre.update(
                        pi as int,
                        pre[pi as int].update(pj as int, count_char(bomb_num)),
                    ));
                    assert(only_revealed(pre, grid_view(board@)));
                    lemma_only_revealed_trans(b0, pre, grid_view(board@));
                    if pi == ci && pj == cj {
                        assert(grid_view(board@)[ci as int][cj as int] == count_char(bomb_num));
                    } else {
                        assert(top[ci as int][cj as int] != 'E');
                        assert(grid_view(board@)[ci as int][cj as int] == top[ci as int][cj as int]);
                    }
                    assert(grid_view(board@)[ci as int][cj as int] != 'E');
                    assert(grid_view(board@)[pi as int][pj as int] == count_char(bomb_num));
                    assert(grid_view(board@).len() == rows);
                    assert(forall|k: int|
                        0 <= k < rows ==> (#[trigger] grid_view(board@)[k]).len() == cols);
                    lemma_pending_step(
                        b0,
                        top,
                        grid_view(board@),
                        stack_top,
                        stack@,
                        pi as int,
                        pj as int,
                    );
                }
            } else {
                set_cell(&mut board, pi, pj, 'B');
                proof {
                    assert(forall|k: int|
                        0 <= k < board@.len() ==> grid_view(board@)[k] == (#[trigger] board@[k])@);
                    assert(reveal_char(pre, pi as int, pj as int) == 'B');
                    assert(grid_view(board@) == pre.update(
                        pi as int,
                        pre[pi as int].update(pj as int, 'B'),
                    ));
                    assert(only_revealed(pre, grid_view(board@)));
                    lemma_only_revealed_trans(b0, pre, grid_view(board@));
                    if pi == ci && pj == cj {
                        assert(grid_view(board@)[ci as int][cj as int] == 'B');
                    } else {
                        assert(top[ci as int][cj as int] != 'E');
                        assert(grid_view(board@)[ci as int][cj as int] == top[ci as int][cj as int]);
                    }
                    assert(grid_view(board@)[ci as int][cj as int] != 'E');
                }
                let ghost after_set = board@;
                let ilo = if pi >= 1 {
                    pi - 1
                } else {
                    0
                };
                let ihi = if pi + 1 < rows {
                    pi + 1
                } else {
                    rows - 1
                };
                let jlo = if pj >= 1 {
                    pj - 1
                } else {
                    0
                };
                let jhi = if pj + 1 < cols {
                    pj + 1
                } else {
                    cols - 1
                };
                let mut ni = ilo;
                while ni <= ihi
                    invariant
                        ilo <= ni,
                        ihi < rows,
                        jlo <= jhi < cols,
                        board@.len() == rows,
                        board@ == after_set,
                        forall|k: int| 0 <= k < rows ==> (#[trigger] board@[k])@.len() == cols,
                        forall|k: int|
                            0 <= k < stack@.len() ==> (#[trigger] stack@[k]).0 < rows
                                && stack@[k].1 < cols,
                        forall|y: (usize, usize)|
                            stack_mid.contains(y) ==> #[trigger] stack@.contains(y),
                        forall|a: int, b: int|
                            #![trigger grid_view(board@)[a][b]]
                            ilo <= a <= ihi && jlo <= b <= jhi && a < ni ==> grid_view(
                                board@,
                            )[a][b] != 'E' || stack@.contains(((a as usize), (b as usize))),
                    decreases ihi + 1 - ni,
                {
                    let mut nj = jlo;
                    while nj <= jhi
                        invariant
                            jlo <= nj,
                            jhi < cols,
                            ilo <= ni <= ihi,
                            ihi < rows,
                            board@.len() == rows,
                            board@ == after_set,
                            forall|k: int| 0 <= k < rows ==> (#[trigger] board@[k])@.len() == cols,
                            forall|k: int|
                                0 <= k < stack@.len() ==> (#[trigger] stack@[k]).0 < rows
                                    && stack@[k].1 < cols,
                            forall|y: (usize, usize)|
                                stack_mid.contains(y) ==> #[trigger] stack@.contains(y),
                            forall|a: int, b: int|
                                #![trigger grid_view(board@)[a][b]]
                                ilo <= a <= ihi && jlo <= b <= jhi && (a < ni || (a == ni && b
                                    < nj)) ==> grid_view(board@)[a][b] != 'E' || stack@.contains(
                                    ((a as usize), (b as usize)),
                                ),
                        decreases jhi + 1 - nj,
                    {
                        let ghost stack_prev = stack@;
                        proof {
                            assert(grid_view(board@)[ni as int] == board@[ni as int]@);
                        }
                        if board[ni][nj] == 'E' {
                            stack.push((ni, nj));
                            proof {
                                assert(stack@ == stack_prev.push((ni, nj)));
                                assert(stack@[stack@.len() - 1] == (ni, nj));
                                assert(stack@.contains((ni, nj)));
                                assert forall|y: (usize, usize)|
                                    stack_prev.contains(y) implies #[trigger] stack@.contains(
                                    y,
                                ) by {
                                    lemma_contains_after_push(stack_prev, (ni, nj), y);
                                }
                            }
                        }
                        nj = nj + 1;
                    }
                    ni = ni + 1;
                }
                proof {
                    assert(grid_view(board@)[ci as int][cj as int] != 'E');
                    assert forall|a: int, b: int|
                        #![trigger grid_view(board@)[a][b]]
                        pi - 1 <= a <= pi + 1 && pj - 1 <= b <= pj + 1 && 0 <= a < rows && 0 <= b
                            < cols implies grid_view(board@)[a][b] != 'E' || stack@.contains(
                        ((a as usize), (b as usize)),
                    ) by {
                        assert(ilo <= a <= ihi && jlo <= b <= jhi);
                    }
                    assert(grid_view(board@).len() == rows);
                    assert(forall|k: int|
                        0 <= k < rows ==> (#[trigger] grid_view(board@)[k]).len() == cols);
                    lemma_pending_step(
                        b0,
                        top,
                        grid_view(board@),
                        stack_top,
                        stack@,
                        pi as int,
                        pj as int,
                    );
                }
            }
        } else {
            proof {
                if pi == ci && pj == cj {
                    assert(grid_view(board@)[ci as int][cj as int] != 'E');
                } else {
                    assert(stack_top.last() == (pi, pj));
                    assert(top[ci as int][cj as int] != 'E');
                }
                assert(grid_view(board@) == top);
                assert(grid_view(board@).len() == rows);
                assert(forall|k: int|
                    0 <= k < rows ==> (#[trigger] grid_view(board@)[k]).len() == cols);
                lemma_pending_step(
                    b0,
                    top,
                    grid_view(board@),
                    stack_top,
                    stack@,
                    pi as int,
                    pj as int,
                );
            }
        }
    }
    board
}

/// The digit character for an adjacent-mine count between one and eight.
pub open spec fn count_char(n: i32) -> char {
    if n == 1 {
        '1'
    } else if n == 2 {
        '2'
    } else if n == 3 {
        '3'
    } else if n == 4 {
        '4'
    } else if n == 5 {
        '5'
    } else if n == 6 {
        '6'
    } else if n == 7 {
        '7'
    } else {
        '8'
    }
}

fn count_to_char(n: i32) -> (c: char)
    requires
        1 <= n <= 8,
    ensures
        c == count_char(n),
        is_count_char(c),
{
    match n {
        1 => '1',
        2 => '2',
        3 => '3',
        4 => '4',
        5 => '5',
        6 => '6',
        7 => '7',
        _ => '8',
    }
}

/// Counts the mines among the up to eight neighbours of a cell, exactly as
/// the mathematical neighbour count says.
fn get_bomb_num(board: &Vec<Vec<char>>, pi: usize, pj: usize) -> (num: i32)
    requires
        board@.len() > 0,
        forall|k: int| 0 <= k < board@.len() ==> (#[trigger] board@[k])@.len() == board@[0]@.len(),
        pi < board@.len(),
        pj < board@[0]@.len(),
    ensures
        0 <= num <= 8,
        num == mine_count(grid_view(board@), pi as int, pj as int),
{
    let rows = board.len();
    let cols = board[0].len();
    proof {
        assert(forall|k: int|
            0 <= k < board@.len() ==> grid_view(board@)[k] == (#[trigger] board@[k])@);
    }
    let mut num: i32 = 0;
    if pi >= 1 && pj >= 1 && board[pi - 1][pj - 1] == 'M' {
        num = num + 1;
    }
    if pi >= 1 && board[pi - 1][pj] == 'M' {
        num = num + 1;
    }
    if pi >= 1 && pj + 1 < cols && board[pi - 1][pj + 1] == 'M' {
        num = num + 1;
    }
    if pj >= 1 && board[pi][pj - 1] == 'M' {
        num = num + 1;
    }
    if pj + 1 < cols && board[pi][pj + 1] == 'M' {
        num = num + 1;
    }
    if pi + 1 < rows && pj >= 1 && board[pi + 1][pj - 1] == 'M' {
        num = num + 1;
    }
    if pi + 1 < rows && board[pi + 1][pj] == 'M' {
        num = num + 1;
    }
    if pi + 1 < rows && pj + 1 < cols && board[pi + 1][pj + 1] == 'M' {
        num = num + 1;
    }
    num
}

} // verus!
