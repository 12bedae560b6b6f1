//! The end of a search: which thread's move is played.

use std::collections::HashMap;

use vstd::prelude::*;

use crate::limits::Limits;

verus! {

broadcast use vstd::std_specs::hash::group_hash_axioms;

/// What a search thread holds of its best root move.
#[derive(Copy, Clone, Debug, PartialEq, Eq, Structural)]
pub struct RootResult {
    /// The move, as a number: equal moves have equal numbers.
    pub mv: u32,
    pub score: i32,
    /// How deep the thread got.
    pub completed_depth: i32,
    /// The score is that of a won position.
    pub win: bool,
    /// The score is that of a lost position.
    pub loss: bool,
    /// The score is that of a decided position.
    pub decisive: bool,
}

/// How a search ends.
#[derive(Copy, Clone, Debug, PartialEq, Eq, Structural)]
pub enum Outcome {
    /// There is no legal move.
    NoMove,
    /// The best move of this thread is played. The flag tells whether the thread's result is
    /// reported first: the main thread has reported its own.
    Play { thread: usize, report: bool },
}

/// The results of the threads, where every thread has one.
pub open spec fn results(roots: Seq<Option<RootResult>>) -> Seq<RootResult> {
    Seq::new(roots.len(), |i: int| roots[i]->0)
}

/// The lowest score of all.
pub open spec fn lowest(rs: Seq<RootResult>) -> int
    decreases rs.len(),
{
    if rs.len() <= 1 {
        rs[0].score as int
    } else {
        let others = lowest(rs.drop_last());
        if rs.last().score < others {
            rs.last().score as int
        } else {
            others
        }
    }
}

/// The weight of a thread's vote: better scores and deeper searches count for more.
pub open spec fn weight(rs: Seq<RootResult>, i: int) -> int {
    (rs[i].score - lowest(rs) + 10) * rs[i].completed_depth
}

/// The weight of the votes of the first `n` threads for a move.
pub open spec fn tally(rs: Seq<RootResult>, mv: u32, n: int) -> int
    decreases n,
{
    if n <= 0 {
        0
    } else if rs[n - 1].mv == mv {
        tally(rs, mv, n - 1) + weight(rs, n - 1)
    } else {
        tally(rs, mv, n - 1)
    }
}

/// The weight of all votes for the move of thread `i`.
pub open spec fn support(rs: Seq<RootResult>, i: int) -> int {
    tally(rs, rs[i].mv, rs.len() as int)
}

/// Whether an `i32` holds the number.
pub open spec fn fits(n: int) -> bool {
    i32::MIN <= n <= i32::MAX
}

/// Whether `i32` arithmetic can weigh and count the votes.
pub open spec fn tally_fits(rs: Seq<RootResult>) -> bool {
    forall|i: int|
        0 <= i < rs.len() ==> {
            &&& fits(#[trigger] rs[i].score - lowest(rs))
            &&& fits(rs[i].score - lowest(rs) + 10)
            &&& fits(weight(rs, i))
            &&& fits(tally(rs, rs[i].mv, i + 1))
        }
}

/// Whether there are votes to count or nothing to vote on: there is a main thread, and if it has a
/// result then all threads have one, and `i32` arithmetic can count their votes.
pub open spec fn is_countable(roots: Seq<Option<RootResult>>) -> bool {
    &&& roots.len() > 0
    &&& roots[0] is Some ==> {
        &&& forall|i: int| 0 <= i < roots.len() ==> #[trigger] roots[i] is Some
        &&& tally_fits(results(roots))
    }
}

/// Whether thread `c` is to be preferred to thread `b`, where `unscored` is the score of a move that
/// was not searched.
pub open spec fn preferred(rs: Seq<RootResult>, unscored: i32, b: int, c: int) -> bool {
    let scored = rs[c].score != unscored;
    if rs[b].win {
        rs[c].score > rs[b].score
    } else if scored && rs[b].score != unscored && rs[b].loss {
        rs[c].score < rs[b].score
    } else if scored && rs[c].decisive {
        true
    } else {
        &&& !rs[c].loss
        &&& {
            ||| support(rs, c) > support(rs, b)
            ||| support(rs, c) == support(rs, b) && weight(rs, c) > weight(rs, b)
        }
    }
}

/// The thread chosen among the first `n`: each in turn displaces the one chosen so far if it is to
/// be preferred.
pub open spec fn chosen(rs: Seq<RootResult>, unscored: i32, n: int) -> int
    decreases n,
{
    if n <= 1 {
        0
    } else {
        let b = chosen(rs, unscored, n - 1);
        if preferred(rs, unscored, b, n - 1) {
            n - 1
        } else {
            b
        }
    }
}

/// How a search ends. A search to a fixed depth, and one for several variations, are decided
/// by the main thread alone.
pub open spec fn outcome_of(
    roots: Seq<Option<RootResult>>,
    limits: Limits,
    multi_pv: usize,
    unscored: i32,
) -> Outcome {
    if roots[0] is None {
        Outcome::NoMove
    } else {
        let thread = if !(limits is Depth) && multi_pv == 1 {
            chosen(results(roots), unscored, roots.len() as int)
        } else {
            0
        };
        Outcome::Play { thread: thread as usize, report: thread != 0 }
    }
}

proof fn lowest_is_lowest(rs: Seq<RootResult>, n: int)
    requires
        0 < n <= rs.len(),
    ensures
        forall|i: int| 0 <= i < n ==> lowest(rs.take(n)) <= #[trigger] rs[i].score,
        exists|i: int| 0 <= i < n && lowest(rs.take(n)) == #[trigger] rs[i].score,
    decreases n,
{
    let part = rs.take(n);
    if n > 1 {
        lowest_is_lowest(rs, n - 1);
        assert(part.drop_last() == rs.take(n - 1));
        assert(part.last() == rs[n - 1]);
        if part.last().score >= lowest(rs.take(n - 1)) {
            let i = choose|i: int|
                0 <= i < n - 1 && lowest(rs.take(n - 1)) == #[trigger] rs[i].score;
            assert(lowest(part) == rs[i].score);
        } else {
            assert(lowest(part) == rs[n - 1].score);
        }
    } else {
        assert(part[0] == rs[0]);
        assert(lowest(part) == rs[0].score);
    }
}

/// Finds the lowest score.
fn lowest_score(rs: &Vec<RootResult>) -> (res: i32)
    requires
        rs.len() > 0,
    ensures
        res == lowest(rs@),
{
    let mut low: i32 = rs[0].score;
    let mut i: usize = 1;
    while i < rs.len()
        invariant
            1 <= i <= rs.len(),
            low == lowest(rs@.take(i as int)),
        decreases rs.len() - i,
    {
        proof {
            assert(rs@.take(i + 1).drop_last() == rs@.take(i as int));
        }
        if rs[i].score < low {
            low = rs[i].score;
        }
        i = i + 1;
    }
    assert(rs@.take(i as int) == rs@);
    low
}

/// The results of all threads, if every thread has one.
fn collect(roots: &Vec<Option<RootResult>>) -> (res: Option<Vec<RootResult>>)
    ensures
        match res {
            Some(rs) => rs@ == results(roots@) && forall|i: int|
                0 <= i < roots.len() ==> #[trigger] roots@[i] is Some,
            None => exists|i: int| 0 <= i < roots.len() && #[trigger] roots@[i] is None,
        },
{
    let mut rs: Vec<RootResult> = Vec::new();
    let mut i: usize = 0;
    while i < roots.len()
        invariant
            i <= roots.len(),
            rs@ == results(roots@).take(i as int),
            forall|j: int| 0 <= j < i ==> #[trigger] roots@[j] is Some,
        decreases roots.len() - i,
    {
        match roots[i] {
            Some(r) => {
                rs.push(r);
                assert(results(roots@).take(i + 1) == results(roots@).take(i as int).push(r));
            },
            None => {
                assert(roots@[i as int] is None);
                return None;
            },
        }
        i = i + 1;
    }
    assert(results(roots@).take(i as int) == results(roots@));
    Some(rs)
}

/// Whether a table holds the votes of the first `n` threads.
spec fn is_table(table: Map<u32, i32>, rs: Seq<RootResult>, n: int) -> bool {
    &&& forall|mv: u32| #[trigger] table.contains_key(mv) ==> table[mv] == tally(rs, mv, n)
    &&& forall|mv: u32| !(#[trigger] table.contains_key(mv)) ==> tally(rs, mv, n) == 0
    &&& forall|i: int| 0 <= i < n ==> table.contains_key((#[trigger] rs[i]).mv)
}

/// Whether `go` can decide on these results.
pub fn accepts(roots: &Vec<Option<RootResult>>) -> (res: bool)
    ensures
        res == is_countable(roots@),
{
    if roots.len() == 0 {
        return false;
    }
    if roots[0].is_none() {
        return true;
    }
    let rs = match collect(roots) {
        Some(rs) => rs,
        None => {
            return false;
        },
    };
    let low = lowest_score(&rs);
    proof {
        lowest_is_lowest(rs@, rs.len() as int);
        assert(rs@.take(rs.len() as int) == rs@);
    }
    let mut table: HashMap<u32, i32> = HashMap::new();
    let mut i: usize = 0;
    while i < rs.len()
        invariant
            i <= rs.len(),
            low == lowest(rs@),
            rs@ == results(roots@),
            roots.len() > 0,
            roots@[0] is Some,
            forall|j: int| 0 <= j < rs.len() ==> lowest(rs@) <= #[trigger] rs@[j].score,
            is_table(table@, rs@, i as int),
            forall|j: int|
                0 <= j < i ==> {
                    &&& fits(#[trigger] rs@[j].score - lowest(rs@))
                    &&& fits(rs@[j].score - lowest(rs@) + 10)
                    &&& fits(weight(rs@, j))
                    &&& fits(tally(rs@, rs@[j].mv, j + 1))
                },
        decreases rs.len() - i,
    {
        let r = rs[i];
        assert(r == rs@[i as int]);
        let spread: i128 = r.score as i128 - low as i128;
        assert(0 <= spread <= 0xffff_ffff);
        let factor: i128 = r.completed_depth as i128;
        assert(-0x1_0000_0000_0000_0000 <= (spread + 10) * factor <= 0x1_0000_0000_0000_0000)
            by (nonlinear_arith)
            requires
                0 <= spread <= 0xffff_ffff,
                -0x8000_0000 <= factor <= 0x7fff_ffff,
        ;
        let value: i128 = (spread + 10) * factor;
        assert(value == weight(rs@, i as int));
        let before: i32 = match table.get(&r.mv) {
            Some(v) => *v,
            None => 0,
        };
        let total: i128 = before as i128 + value;
        assert(total == tally(rs@, r.mv, i + 1));
        let min: i128 = i32::MIN as i128;
        let max: i128 = i32::MAX as i128;
        if spread > max || spread + 10 > max || value < min || value > max || total < min || total
            > max {
            assert(!tally_fits(rs@)) by {
                assert(rs@[i as int].score - lowest(rs@) == spread);
            }
            return false;
        }
        table.insert(r.mv, total as i32);
        i = i + 1;
    }
    true
}

/// Counts the votes.
fn count_votes(rs: &Vec<RootResult>, low: i32) -> (res: HashMap<u32, i32>)
    requires
        rs.len() > 0,
        low == lowest(rs@),
        tally_fits(rs@),
    ensures
        is_table(res@, rs@, rs.len() as int),
{
    let mut table: HashMap<u32, i32> = HashMap::new();
    let mut i: usize = 0;
    while i < rs.len()
        invariant
            i <= rs.len(),
            low == lowest(rs@),
            tally_fits(rs@),
            is_table(table@, rs@, i as int),
        decreases rs.len() - i,
    {
        let r = rs[i];
        let value = vote_value(rs, i, low);
        let before: i32 = match table.get(&r.mv) {
            Some(v) => *v,
            None => 0,
        };
        assert(fits(tally(rs@, rs@[i as int].mv, i + 1)));
        table.insert(r.mv, before + value);
        i = i + 1;
    }
    table
}

/// The weight of a thread's vote.
fn vote_value(rs: &Vec<RootResult>, i: usize, low: i32) -> (res: i32)
    requires
        i < rs.len(),
        low == lowest(rs@),
        tally_fits(rs@),
    ensures
        res == weight(rs@, i as int),
{
    let r = rs[i];
    assert(fits(rs@[i as int].score - lowest(rs@)));
    (r.score - low + 10) * r.completed_depth
}

/// Whether thread `c` is to be preferred to thread `b`.
fn is_better_candidate(
    rs: &Vec<RootResult>,
    votes: &HashMap<u32, i32>,
    low: i32,
    unscored: i32,
    b: usize,
    c: usize,
) -> (res: bool)
    requires
        b < rs.len(),
        c < rs.len(),
        low == lowest(rs@),
        tally_fits(rs@),
        is_table(votes@, rs@, rs.len() as int),
    ensures
        res == preferred(rs@, unscored, b as int, c as int),
{
    let best = rs[b];
    let current = rs[c];
    if best.win {
        return current.score > best.score;
    }
    if current.score != unscored && best.score != unscored && best.loss {
        return current.score < best.score;
    }
    if current.score != unscored && current.decisive {
        return true;
    }
    assert(votes@.contains_key(rs@[b as int].mv));
    assert(votes@.contains_key(rs@[c as int].mv));
    let best_vote: i32 = match votes.get(&best.mv) {
        Some(v) => *v,
        None => 0,
    };
    let current_vote: i32 = match votes.get(&current.mv) {
        Some(v) => *v,
        None => 0,
    };
    !current.loss && (current_vote > best_vote || (current_vote == best_vote && vote_value(
        rs,
        c,
        low,
    ) > vote_value(rs, b, low)))
}

/// Decides how a search ends, from what its threads found.
///
/// The threads vote for their best moves; a thread whose move has more support displaces the main
/// thread, and decided scores take precedence. `unscored` is the score of a move that was not
/// searched.
pub fn go(
    roots: &Vec<Option<RootResult>>,
    limits: Limits,
    multi_pv: usize,
    unscored: i32,
) -> (res: Outcome)
    requires
        is_countable(roots@),
    ensures
        res == outcome_of(roots@, limits, multi_pv, unscored),
{
    if roots[0].is_none() {
        return Outcome::NoMove;
    }
    let rs = match collect(roots) {
        Some(rs) => rs,
        None => {
            return Outcome::NoMove;
        },
    };
    let low = lowest_score(&rs);
    let votes = count_votes(&rs, low);
    let mut best: usize = 0;
    let fixed_depth = match limits {
        Limits::Depth(_) => true,
        _ => false,
    };
    if !fixed_depth && multi_pv == 1 {
        let mut current: usize = 1;
        while current < rs.len()
            invariant
                1 <= current <= rs.len(),
                best < rs.len(),
                best == chosen(rs@, unscored, current as int),
                low == lowest(rs@),
                tally_fits(rs@),
                is_table(votes@, rs@, rs.len() as int),
            decreases rs.len() - current,
        {
            if is_better_candidate(&rs, &votes, low, unscored, best, current) {
                best = current;
            }
            current = current + 1;
        }
    }
    Outcome::Play { thread: best, report: best != 0 }
}

/// The line that ends a search.
pub open spec fn bestmove_line(mv: Option<Seq<char>>) -> Seq<char> {
    match mv {
        Some(text) => "bestmove "@ + text,
        None => "bestmove (none)"@,
    }
}

/// The line that ends a search: the move to play, or none.
pub fn bestmove(mv: Option<&str>) -> (res: String)
    ensures
        res@ == bestmove_line(
            match mv {
                Some(text) => Some(text@),
                None => None,
            },
        ),
{
    match mv {
        Some(text) => "bestmove ".to_owned().concat(text),
        None => "bestmove (none)".to_owned(),
    }
}

/// Every line that ends a search begins with `bestmove`.
pub proof fn law_bestmove_comes_first(mv: Option<Seq<char>>)
    ensures
        bestmove_line(mv).len() > 8,
        bestmove_line(mv).take(8) == "bestmove"@,
{
    reveal_strlit("bestmove");
    reveal_strlit("bestmove ");
    reveal_strlit("bestmove (none)");
    assert(bestmove_line(mv).take(8) =~= "bestmove"@);
}

proof fn chosen_in_range(rs: Seq<RootResult>, unscored: i32, n: int)
    requires
        0 < n <= rs.len(),
    ensures
        0 <= chosen(rs, unscored, n) < n,
    decreases n,
{
    if n > 1 {
        chosen_in_range(rs, unscored, n - 1);
    }
}

/// A move is played exactly if the main thread has one, and it is then that of one of the threads.
pub proof fn law_outcome_names_a_thread(
    roots: Seq<Option<RootResult>>,
    limits: Limits,
    multi_pv: usize,
    unscored: i32,
)
    requires
        is_countable(roots),
        roots.len() <= usize::MAX,
    ensures
        match outcome_of(roots, limits, multi_pv, unscored) {
            Outcome::NoMove => roots[0] is None,
            Outcome::Play { thread, report } => roots[0] is Some && thread < roots.len()
                && roots[thread as int] is Some && report == (thread != 0),
        },
{
    if roots[0] is Some {
        chosen_in_range(results(roots), unscored, roots.len() as int);
    }
}

/// Whether no score is that of a decided position.
pub open spec fn all_undecided(rs: Seq<RootResult>) -> bool {
    forall|i: int|
        0 <= i < rs.len() ==> !(#[trigger] rs[i]).win && !rs[i].loss && !rs[i].decisive
}

proof fn chosen_has_most_support(rs: Seq<RootResult>, unscored: i32, n: int)
    requires
        0 < n <= rs.len(),
        all_undecided(rs),
    ensures
        ({
            let c = chosen(rs, unscored, n);
            forall|i: int|
                #![trigger support(rs, i)]
                0 <= i < n ==> {
                    ||| support(rs, i) < support(rs, c)
                    ||| support(rs, i) == support(rs, c) && weight(rs, i) < weight(rs, c)
                    ||| support(rs, i) == support(rs, c) && weight(rs, i) == weight(rs, c) && c <= i
                }
        }),
    decreases n,
{
    if n > 1 {
        chosen_has_most_support(rs, unscored, n - 1);
        chosen_in_range(rs, unscored, n - 1);
        let b = chosen(rs, unscored, n - 1);
        assert(!rs[b].win && !rs[b].loss);
        assert(!rs[n - 1].loss && !rs[n - 1].decisive);
        assert(support(rs, b) == support(rs, b));
    }
}

/// While nothing is decided, the votes decide: the move played has at least the support of every
/// other move, no thread with equal support has a weightier vote than the thread whose move it is,
/// and of threads that are equal in both the first is chosen.
pub proof fn law_votes_decide(
    roots: Seq<Option<RootResult>>,
    limits: Limits,
    unscored: i32,
    i: int,
)
    requires
        is_countable(roots),
        roots.len() <= usize::MAX,
        roots[0] is Some,
        !(limits is Depth),
        all_undecided(results(roots)),
        0 <= i < roots.len(),
    ensures
        outcome_of(roots, limits, 1, unscored) matches Outcome::Play { thread, .. } && {
            let rs = results(roots);
            let t = thread as int;
            ||| support(rs, i) < support(rs, t)
            ||| support(rs, i) == support(rs, t) && weight(rs, i) < weight(rs, t)
            ||| support(rs, i) == support(rs, t) && weight(rs, i) == weight(rs, t) && t <= i
        },
{
    chosen_in_range(results(roots), unscored, roots.len() as int);
    chosen_has_most_support(results(roots), unscored, roots.len() as int);
}

/// Whether a score above a won one is won too.
pub open spec fn wins_are_highest(rs: Seq<RootResult>) -> bool {
    forall|i: int, j: int|
        0 <= i < rs.len() && 0 <= j < rs.len() && (#[trigger] rs[i]).win && rs[i].score <= (
        #[trigger] rs[j]).score ==> rs[j].win
}

proof fn chosen_win_is_highest(rs: Seq<RootResult>, unscored: i32, n: int)
    requires
        0 < n <= rs.len(),
        rs[0].win,
        wins_are_highest(rs),
    ensures
        rs[chosen(rs, unscored, n)].win,
        forall|i: int|
            0 <= i < n ==> (#[trigger] rs[i]).score <= rs[chosen(rs, unscored, n)].score,
        forall|i: int|
            0 <= i < chosen(rs, unscored, n) ==> (#[trigger] rs[i]).score < rs[chosen(
                rs,
                unscored,
                n,
            )].score,
    decreases n,
{
    if n > 1 {
        chosen_win_is_highest(rs, unscored, n - 1);
        chosen_in_range(rs, unscored, n - 1);
    }
}

/// If the main thread has found a win, the win with the highest score is played, and of threads with
/// that score the first is chosen.
pub proof fn law_best_win_is_played(
    roots: Seq<Option<RootResult>>,
    limits: Limits,
    unscored: i32,
    i: int,
)
    requires
        is_countable(roots),
        roots.len() <= usize::MAX,
        roots[0] is Some,
        !(limits is Depth),
        results(roots)[0].win,
        wins_are_highest(results(roots)),
        0 <= i < roots.len(),
    ensures
        outcome_of(roots, limits, 1, unscored) matches Outcome::Play { thread, .. } && {
            let rs = results(roots);
            &&& rs[thread as int].win
            &&& rs[i].score <= rs[thread as int].score
            &&& i < thread ==> rs[i].score < rs[thread as int].score
        },
{
    chosen_in_range(results(roots), unscored, roots.len() as int);
    chosen_win_is_highest(results(roots), unscored, roots.len() as int);
}

/// Whether a score below a lost one is lost too, and none is both won and lost.
pub open spec fn losses_are_lowest(rs: Seq<RootResult>) -> bool {
    &&& forall|i: int| 0 <= i < rs.len() ==> !((#[trigger] rs[i]).win && rs[i].loss)
    &&& forall|i: int, j: int|
        0 <= i < rs.len() && 0 <= j < rs.len() && (#[trigger] rs[i]).loss && (
        #[trigger] rs[j]).score <= rs[i].score ==> rs[j].loss
}

/// Whether no score is below that of a move that was not searched.
pub open spec fn unscored_is_lowest(rs: Seq<RootResult>, unscored: i32) -> bool {
    forall|i: int| 0 <= i < rs.len() ==> unscored <= (#[trigger] rs[i]).score
}

proof fn chosen_loss_is_lowest(rs: Seq<RootResult>, unscored: i32, n: int)
    requires
        0 < n <= rs.len(),
        rs[0].loss,
        rs[0].score != unscored,
        losses_are_lowest(rs),
        unscored_is_lowest(rs, unscored),
    ensures
        rs[chosen(rs, unscored, n)].loss,
        rs[chosen(rs, unscored, n)].score != unscored,
        forall|i: int|
            0 <= i < n && (#[trigger] rs[i]).score != unscored ==> rs[chosen(
                rs,
                unscored,
                n,
            )].score <= rs[i].score,
        forall|i: int|
            0 <= i < chosen(rs, unscored, n) && (#[trigger] rs[i]).score != unscored ==> rs[chosen(
                rs,
                unscored,
                n,
            )].score < rs[i].score,
    decreases n,
{
    if n > 1 {
        chosen_loss_is_lowest(rs, unscored, n - 1);
        chosen_in_range(rs, unscored, n - 1);
        let b = chosen(rs, unscored, n - 1);
        assert(!(rs[b].win && rs[b].loss));
        if rs[n - 1].score == unscored {
            assert(rs[n - 1].score <= rs[b].score);
            assert(rs[n - 1].loss);
        }
    }
}

/// If the main thread has searched its move and found a loss, the loss with the lowest score among
/// the searched moves is played, and of threads with that score the first is chosen.
pub proof fn law_lowest_loss_is_played(
    roots: Seq<Option<RootResult>>,
    limits: Limits,
    unscored: i32,
    i: int,
)
    requires
        is_countable(roots),
        roots.len() <= usize::MAX,
        roots[0] is Some,
        !(limits is Depth),
        results(roots)[0].loss,
        results(roots)[0].score != unscored,
        losses_are_lowest(results(roots)),
        unscored_is_lowest(results(roots), unscored),
        0 <= i < roots.len(),
    ensures
        outcome_of(roots, limits, 1, unscored) matches Outcome::Play { thread, .. } && {
            let rs = results(roots);
            &&& rs[thread as int].loss
            &&& rs[thread as int].score != unscored
            &&& rs[i].score != unscored ==> rs[thread as int].score <= rs[i].score
            &&& rs[i].score != unscored && i < thread ==> rs[thread as int].score < rs[i].score
        },
{
    chosen_in_range(results(roots), unscored, roots.len() as int);
    chosen_loss_is_lowest(results(roots), unscored, roots.len() as int);
}

/// Whether the marks of the scores agree: a decided position is won or lost and not both, a score
/// above a won one is won, a score below a lost one is lost, and so is that of a move that was not
/// searched.
pub open spec fn is_graded(rs: Seq<RootResult>, unscored: i32) -> bool {
    &&& wins_are_highest(rs)
    &&& losses_are_lowest(rs)
    &&& forall|i: int|
        0 <= i < rs.len() ==> {
            &&& (#[trigger] rs[i]).decisive == (rs[i].win || rs[i].loss)
            &&& rs[i].score == unscored ==> rs[i].loss
        }
}

/// Whether thread `i` has searched its move and found a decided position.
pub open spec fn is_decided(rs: Seq<RootResult>, unscored: i32, i: int) -> bool {
    rs[i].score != unscored && rs[i].decisive
}

proof fn chosen_is_decided(rs: Seq<RootResult>, unscored: i32, n: int, i: int)
    requires
        0 <= i < n <= rs.len(),
        is_graded(rs, unscored),
        is_decided(rs, unscored, i),
    ensures
        is_decided(rs, unscored, chosen(rs, unscored, n)),
    decreases n,
{
    if n > 1 {
        let b = chosen(rs, unscored, n - 1);
        chosen_in_range(rs, unscored, n - 1);
        if i < n - 1 {
            chosen_is_decided(rs, unscored, n - 1, i);
        }
        assert(rs[b].decisive == (rs[b].win || rs[b].loss));
        assert(rs[n - 1].decisive == (rs[n - 1].win || rs[n - 1].loss));
        assert(!(rs[b].win && rs[b].loss) && !(rs[n - 1].win && rs[n - 1].loss));
    }
}

/// Decided scores take precedence: if any thread has searched its move and found a decided position,
/// so has the thread whose move is played.
pub proof fn law_decided_scores_take_precedence(
    roots: Seq<Option<RootResult>>,
    limits: Limits,
    unscored: i32,
    i: int,
)
    requires
        is_countable(roots),
        roots.len() <= usize::MAX,
        roots[0] is Some,
        !(limits is Depth),
        is_graded(results(roots), unscored),
        0 <= i < roots.len(),
        is_decided(results(roots), unscored, i),
    ensures
        outcome_of(roots, limits, 1, unscored) matches Outcome::Play { thread, .. } && is_decided(
            results(roots),
            unscored,
            thread as int,
        ),
{
    chosen_in_range(results(roots), unscored, roots.len() as int);
    chosen_is_decided(results(roots), unscored, roots.len() as int, i);
}

/// A search to a fixed depth and a search for any number of variations but one are left to the main
/// thread: if it has a move that move is played, whatever the other threads found.
pub proof fn law_main_thread_decides_alone(
    roots: Seq<Option<RootResult>>,
    limits: Limits,
    multi_pv: usize,
    unscored: i32,
)
    requires
        roots.len() > 0,
    ensures
        roots[0] is Some && (limits is Depth || multi_pv != 1) ==> outcome_of(
            roots,
            limits,
            multi_pv,
            unscored,
        ) == (Outcome::Play { thread: 0, report: false }),
        roots[0] is Some && roots.len() == 1 ==> outcome_of(roots, limits, multi_pv, unscored) == (
        Outcome::Play { thread: 0, report: false }),
        roots[0] is None ==> outcome_of(roots, limits, multi_pv, unscored) == Outcome::NoMove,
{
}

/// What bounds a search makes no difference to the vote, unless it is a depth.
pub proof fn law_only_a_depth_matters(
    roots: Seq<Option<RootResult>>,
    a: Limits,
    b: Limits,
    multi_pv: usize,
    unscored: i32,
)
    requires
        !(a is Depth),
        !(b is Depth),
    ensures
        outcome_of(roots, a, multi_pv, unscored) == outcome_of(roots, b, multi_pv, unscored),
{
}

/// The line that plays a move is `bestmove`, a space and the whole move as it is written, so that it
/// tells which move is meant. Without a move the line says so.
pub proof fn law_bestmove_line_is_the_whole_move(a: Seq<char>, b: Seq<char>)
    ensures
        bestmove_line(Some(a)).len() == 9 + a.len(),
        bestmove_line(Some(a)).take(9) == "bestmove "@,
        bestmove_line(Some(a)).skip(9) == a,
        bestmove_line(Some(a)) == bestmove_line(Some(b)) ==> a == b,
        bestmove_line(None) == "bestmove "@ + "(none)"@,
{
    reveal_strlit("bestmove ");
    reveal_strlit("(none)");
    reveal_strlit("bestmove (none)");
    assert("bestmove "@.len() == 9);
    assert(bestmove_line(Some(a)).take(9) =~= "bestmove "@);
    assert(bestmove_line(Some(a)).skip(9) =~= a);
    assert(bestmove_line(Some(b)).skip(9) =~= b);
    assert(bestmove_line(None) =~= "bestmove "@ + "(none)"@);
}

proof fn lowest_of_all(rs: Seq<RootResult>)
    requires
        rs.len() > 0,
    ensures
        forall|i: int| 0 <= i < rs.len() ==> lowest(rs) <= (#[trigger] rs[i]).score,
        exists|i: int| 0 <= i < rs.len() && lowest(rs) == (#[trigger] rs[i]).score,
    decreases rs.len(),
{
    if rs.len() == 1 {
        assert(lowest(rs) == rs[0].score);
    } else {
        let front = rs.drop_last();
        lowest_of_all(front);
        assert forall|i: int| 0 <= i < rs.len() implies lowest(rs) <= (#[trigger] rs[i]).score by {
            if i < front.len() {
                assert(front[i] == rs[i]);
            }
        }
        if rs.last().score < lowest(front) {
            assert(lowest(rs) == rs[rs.len() - 1].score);
        } else {
            let i = choose|i: int| 0 <= i < front.len() && lowest(front) == (#[trigger] front[i]).score;
            assert(lowest(rs) == rs[i].score);
        }
    }
}

/// A vote weighs what its score is above the lowest of all scores, and ten, as many times as the
/// thread has completed depths.
pub proof fn law_weight_of_a_vote(rs: Seq<RootResult>, i: int, low: int)
    requires
        0 <= i < rs.len(),
        forall|j: int| 0 <= j < rs.len() ==> low <= (#[trigger] rs[j]).score,
        exists|j: int| 0 <= j < rs.len() && low == (#[trigger] rs[j]).score,
    ensures
        weight(rs, i) == (rs[i].score - low + 10) * rs[i].completed_depth,
{
    lowest_of_all(rs);
    let j = choose|j: int| 0 <= j < rs.len() && low == (#[trigger] rs[j]).score;
    let k = choose|k: int| 0 <= k < rs.len() && lowest(rs) == (#[trigger] rs[k]).score;
    assert(lowest(rs) <= rs[j].score);
    assert(low <= rs[k].score);
}

/// What each thread adds to the support of a move: its weight if it votes for the move, and nothing
/// otherwise.
pub open spec fn shares(rs: Seq<RootResult>, mv: u32) -> Seq<int> {
    Seq::new(
        rs.len(),
        |j: int|
            if rs[j].mv == mv {
                weight(rs, j)
            } else {
                0
            },
    )
}

proof fn tally_is_a_sum(rs: Seq<RootResult>, mv: u32, n: int)
    requires
        0 <= n <= rs.len(),
    ensures
        tally(rs, mv, n) == shares(rs, mv).take(n).fold_left(0, |sum: int, share: int| sum + share),
    decreases n,
{
    let plus = |sum: int, share: int| sum + share;
    let part = shares(rs, mv).take(n);
    if n > 0 {
        tally_is_a_sum(rs, mv, n - 1);
        assert(part.drop_last() =~= shares(rs, mv).take(n - 1));
        assert(part.last() == shares(rs, mv)[n - 1]);
        assert(part.fold_left(0, plus) == plus(part.drop_last().fold_left(0, plus), part.last()));
    }
}

/// The support of a thread's move is the sum of the votes for it, its own and those of all other
/// threads with the same move, so that threads with the same move have the same support.
pub proof fn law_support_is_the_sum_of_votes(rs: Seq<RootResult>, i: int, j: int)
    requires
        0 <= i < rs.len(),
        0 <= j < rs.len(),
    ensures
        support(rs, i) == shares(rs, rs[i].mv).fold_left(0, |sum: int, share: int| sum + share),
        rs[i].mv == rs[j].mv ==> support(rs, i) == support(rs, j),
{
    tally_is_a_sum(rs, rs[i].mv, rs.len() as int);
    assert(shares(rs, rs[i].mv).take(rs.len() as int) =~= shares(rs, rs[i].mv));
}

/// Whether no searched move of the first `n` threads has a decided score.
pub open spec fn none_decided(rs: Seq<RootResult>, unscored: i32, n: int) -> bool {
    forall|i: int| 0 <= i < n ==> !#[trigger] is_decided(rs, unscored, i)
}

proof fn chosen_by_vote(rs: Seq<RootResult>, unscored: i32, n: int)
    requires
        0 < n <= rs.len(),
        is_graded(rs, unscored),
        none_decided(rs, unscored, n),
    ensures
        ({
            let c = chosen(rs, unscored, n);
            &&& c == 0 || rs[c].score != unscored
            &&& forall|i: int|
                #![trigger support(rs, i)]
                0 <= i < n && (i == 0 || rs[i].score != unscored) ==> {
                    ||| support(rs, i) < support(rs, c)
                    ||| support(rs, i) == support(rs, c) && weight(rs, i) < weight(rs, c)
                    ||| support(rs, i) == support(rs, c) && weight(rs, i) == weight(rs, c) && c <= i
                }
        }),
    decreases n,
{
    if n > 1 {
        chosen_by_vote(rs, unscored, n - 1);
        chosen_in_range(rs, unscored, n - 1);
        let b = chosen(rs, unscored, n - 1);
        assert(!is_decided(rs, unscored, b));
        assert(!is_decided(rs, unscored, n - 1));
        assert(rs[b].decisive == (rs[b].win || rs[b].loss));
        assert(rs[n - 1].decisive == (rs[n - 1].win || rs[n - 1].loss));
        assert(!(rs[b].win && rs[b].loss));
        assert(support(rs, b) == support(rs, b));
    }
}

/// As long as no searched move has a decided score, the votes decide between the main thread and all
/// threads that have searched their move: support counts first, the weight of the thread's own vote
/// second, and its place third. A thread that has not searched its move is not chosen, unless it is
/// the main thread.
pub proof fn law_votes_decide_what_is_open(
    roots: Seq<Option<RootResult>>,
    limits: Limits,
    unscored: i32,
    i: int,
)
    requires
        is_countable(roots),
        roots.len() <= usize::MAX,
        roots[0] is Some,
        !(limits is Depth),
        is_graded(results(roots), unscored),
        none_decided(results(roots), unscored, roots.len() as int),
        0 <= i < roots.len(),
    ensures
        outcome_of(roots, limits, 1, unscored) matches Outcome::Play { thread, .. } && {
            let rs = results(roots);
            let t = thread as int;
            &&& t == 0 || rs[t].score != unscored
            &&& i == 0 || rs[i].score != unscored ==> {
                ||| support(rs, i) < support(rs, t)
                ||| support(rs, i) == support(rs, t) && weight(rs, i) < weight(rs, t)
                ||| support(rs, i) == support(rs, t) && weight(rs, i) == weight(rs, t) && t <= i
            }
        },
{
    chosen_in_range(results(roots), unscored, roots.len() as int);
    chosen_by_vote(results(roots), unscored, roots.len() as int);
}

proof fn chosen_by_first_decision(rs: Seq<RootResult>, unscored: i32, n: int, f: int)
    requires
        0 <= f < n <= rs.len(),
        is_graded(rs, unscored),
        none_decided(rs, unscored, f),
        is_decided(rs, unscored, f),
    ensures
        ({
            let c = chosen(rs, unscored, n);
            &&& f <= c
            &&& rs[c].score != unscored
            &&& rs[f].win ==> rs[c].win && forall|i: int|
                0 <= i < n ==> (#[trigger] rs[i]).score < rs[c].score || (rs[i].score == rs[c].score
                    && c <= i)
            &&& rs[f].loss ==> rs[c].loss && forall|i: int|
                0 <= i < n && (#[trigger] rs[i]).score != unscored ==> rs[c].score < rs[i].score || (
                rs[i].score == rs[c].score && c <= i)
        }),
    decreases n,
{
    let c = chosen(rs, unscored, n);
    chosen_in_range(rs, unscored, n);
    assert(rs[f].decisive == (rs[f].win || rs[f].loss));
    assert(!(rs[f].win && rs[f].loss));
    if n - 1 > f {
        chosen_by_first_decision(rs, unscored, n - 1, f);
        chosen_in_range(rs, unscored, n - 1);
        let b = chosen(rs, unscored, n - 1);
        assert(!(rs[b].win && rs[b].loss));
        assert(!(rs[n - 1].win && rs[n - 1].loss));
        assert(rs[n - 1].score == unscored ==> rs[n - 1].loss);
        assert(rs[b].win ==> rs[b].score <= rs[n - 1].score ==> rs[n - 1].win);
        assert(rs[b].loss ==> rs[n - 1].score <= rs[b].score ==> rs[n - 1].loss);
    } else {
        if n > 1 {
            chosen_in_range(rs, unscored, n - 1);
            let b = chosen(rs, unscored, n - 1);
            assert(!is_decided(rs, unscored, b));
            assert(rs[b].decisive == (rs[b].win || rs[b].loss));
            assert(!(rs[b].win && rs[b].loss));
        }
        assert(c == f);
        assert forall|i: int| 0 <= i < n && i != f implies {
            &&& rs[f].win ==> (#[trigger] rs[i]).score < rs[f].score
            &&& rs[f].loss && rs[i].score != unscored ==> rs[f].score < rs[i].score
        } by {
            assert(!is_decided(rs, unscored, i));
            assert(rs[i].decisive == (rs[i].win || rs[i].loss));
            assert(!(rs[i].win && rs[i].loss));
            if rs[f].win && rs[f].score <= rs[i].score {
                assert(rs[i].win);
            }
            if rs[f].loss && rs[i].score <= rs[f].score {
                assert(rs[i].loss);
            }
        }
    }
}

/// The first thread with a decided score on a searched move sets the course. If it has found a win,
/// the highest score of all is played; if it has found a loss, the lowest score of all searched
/// moves. Of threads with that score the first is chosen.
pub proof fn law_first_decision_sets_the_course(
    roots: Seq<Option<RootResult>>,
    limits: Limits,
    unscored: i32,
    f: int,
    i: int,
)
    requires
        is_countable(roots),
        roots.len() <= usize::MAX,
        roots[0] is Some,
        !(limits is Depth),
        is_graded(results(roots), unscored),
        0 <= f < roots.len(),
        none_decided(results(roots), unscored, f),
        is_decided(results(roots), unscored, f),
        0 <= i < roots.len(),
    ensures
        outcome_of(roots, limits, 1, unscored) matches Outcome::Play { thread, .. } && {
            let rs = results(roots);
            let t = thread as int;
            &&& rs[t].score != unscored
            &&& rs[f].win ==> rs[i].score < rs[t].score || (rs[i].score == rs[t].score && t <= i)
            &&& rs[f].loss && rs[i].score != unscored ==> rs[t].score < rs[i].score || (rs[i].score
                == rs[t].score && t <= i)
        },
{
    chosen_in_range(results(roots), unscored, roots.len() as int);
    chosen_by_first_decision(results(roots), unscored, roots.len() as int, f);
}

proof fn tally_is_bounded(rs: Seq<RootResult>, mv: u32, n: int, bound: int)
    requires
        0 <= n <= rs.len(),
        0 <= bound,
        forall|i: int| 0 <= i < rs.len() ==> 0 <= #[trigger] weight(rs, i) <= bound,
    ensures
        0 <= tally(rs, mv, n) <= n * bound,
    decreases n,
{
    if n > 0 {
        tally_is_bounded(rs, mv, n - 1, bound);
        assert(0 <= weight(rs, n - 1) <= bound);
        assert(n * bound == (n - 1) * bound + bound) by (nonlinear_arith);
        assert((n - 1) * bound >= 0) by (nonlinear_arith)
            requires
                n >= 1,
                bound >= 0,
        ;
    } else {
        assert(0 * bound == 0);
    }
}

/// Results can be counted whenever the numbers are not enormous: every thread has one, the scores
/// lie between `low` and `high`, the depths between zero and `depth`, and as many of the heaviest
/// votes that this allows as there are threads fit in an `i32`. So can results without a move for
/// the main thread.
pub proof fn law_ordinary_results_can_be_counted(
    roots: Seq<Option<RootResult>>,
    low: int,
    high: int,
    depth: int,
)
    requires
        roots.len() > 0,
        roots[0] is Some ==> {
            &&& forall|i: int|
                0 <= i < roots.len() ==> #[trigger] roots[i] is Some && low <= roots[i]->0.score
                    <= high && 0 <= roots[i]->0.completed_depth <= depth
            &&& high - low + 10 <= 0x7fff_ffff
            &&& roots.len() * ((high - low + 10) * depth) <= 0x7fff_ffff
        },
    ensures
        is_countable(roots),
{
    if roots[0] is Some {
        let rs = results(roots);
        let bound = (high - low + 10) * depth;
        lowest_of_all(rs);
        let k = choose|k: int| 0 <= k < rs.len() && lowest(rs) == (#[trigger] rs[k]).score;
        assert(roots[k] is Some);
        assert(roots[0]->0.completed_depth >= 0);
        assert forall|i: int| 0 <= i < rs.len() implies 0 <= #[trigger] weight(rs, i) <= bound by {
            assert(roots[i] is Some);
            let a = rs[i].score - lowest(rs) + 10;
            let d = rs[i].completed_depth as int;
            assert(0 <= a <= high - low + 10);
            assert(0 <= a * d <= (high - low + 10) * depth) by (nonlinear_arith)
                requires
                    0 <= a <= high - low + 10,
                    0 <= d <= depth,
            ;
        }
        assert(weight(rs, 0) <= bound);
        assert forall|i: int| 0 <= i < rs.len() implies {
            &&& fits(#[trigger] rs[i].score - lowest(rs))
            &&& fits(rs[i].score - lowest(rs) + 10)
            &&& fits(weight(rs, i))
            &&& fits(tally(rs, rs[i].mv, i + 1))
        } by {
            assert(roots[i] is Some);
            assert(weight(rs, i) <= bound);
            tally_is_bounded(rs, rs[i].mv, i + 1, bound);
            assert((i + 1) * bound <= roots.len() * bound) by (nonlinear_arith)
                requires
                    i + 1 <= roots.len(),
                    0 <= bound,
            ;
            assert(bound <= roots.len() * bound) by (nonlinear_arith)
                requires
                    1 <= roots.len(),
                    0 <= bound,
            ;
        }
    }
}

} // verus!
