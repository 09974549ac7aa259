//! Random, constraint-respecting friendships inside a classic set.
//!
//! Each side gets a pass over its pawns and a pass over its special pieces.
//! A pass makes a drawn number of attempts; an attempt samples at most six
//! indices of the group for each of the two friends and gives up when none of
//! the samples is free. This favours speed over complete matching.
use vstd::prelude::*;

use crate::pieces::{
    classic_at, classic_side, is_classic_layout, is_royal, Class, Piece, Side,
    CLASSIC_PIECES_N,
};
use crate::random::draw_between;

verus! {

/// How many indices are sampled when looking for one friend.
pub const SEARCH_ATTEMPTS: usize = 6;

/// Pieces `i` and `j` are on the same side and in the same sub-group: both
/// pawns, or both special pieces.
pub open spec fn same_group(ps: Seq<Piece>, i: int, j: int) -> bool {
    &&& ps[i].side == ps[j].side
    &&& (ps[i].class == Class::Pawn) == (ps[j].class == Class::Pawn)
}

/// The friendship of piece `i`, if any, is a proper one: mutual, between two
/// distinct non-royal pieces of one side and one sub-group.
pub open spec fn friend_ok(ps: Seq<Piece>, i: int) -> bool {
    match ps[i].friend {
        None => true,
        Some(j) => {
            &&& 0 <= j < ps.len()
            &&& j != i
            &&& ps[j as int].friend == Some(i as usize)
            &&& !is_royal(ps[i].class)
            &&& same_group(ps, i, j as int)
        },
    }
}

pub open spec fn friendships_valid(ps: Seq<Piece>) -> bool {
    forall|i: int| 0 <= i < ps.len() ==> #[trigger] friend_ok(ps, i)
}

/// `q` is `p` but for its friend.
pub open spec fn same_identity(p: Piece, q: Piece) -> bool {
    &&& q.class == p.class
    &&& q.side == p.side
    &&& q.sex == p.sex
    &&& q.pos == p.pos
    &&& q.nature == p.nature
    &&& q.name@ == p.name@
    &&& q.enemy == p.enemy
}

/// Between `old` and `new` only friendships were added: identities are the
/// same and every friendship of `old` still stands.
pub open spec fn friends_added(old: Seq<Piece>, new: Seq<Piece>) -> bool {
    &&& new.len() == old.len()
    &&& forall|i: int|
        0 <= i < old.len() ==> #[trigger] same_identity(old[i], new[i]) && (old[i].friend.is_some()
            ==> new[i].friend == old[i].friend)
}

/// Piece `i` may take a friend: it has none, is not royal, and is not `except`.
pub open spec fn eligible(ps: Seq<Piece>, i: int, except: int) -> bool {
    &&& ps[i].friend.is_none()
    &&& !is_royal(ps[i].class)
    &&& i != except
}

/// The first of the sampled indices `draws` that is eligible.
pub open spec fn first_eligible(ps: Seq<Piece>, draws: Seq<usize>, except: usize) -> Option<usize>
    decreases draws.len(),
{
    if draws.len() == 0 {
        None
    } else if eligible(ps, draws[0] as int, except as int) {
        Some(draws[0])
    } else {
        first_eligible(ps, draws.drop_first(), except)
    }
}

/// Whatever `first_eligible` finds is eligible and one of the draws.
pub proof fn lemma_first_eligible(ps: Seq<Piece>, draws: Seq<usize>, except: usize, lo: int, hi: int)
    requires
        forall|k: int| 0 <= k < draws.len() ==> lo <= #[trigger] draws[k] <= hi,
    ensures
        first_eligible(ps, draws, except) matches Some(i) ==> lo <= i <= hi && eligible(
            ps,
            i as int,
            except as int,
        ),
    decreases draws.len(),
{
    if draws.len() > 0 && !eligible(ps, draws[0] as int, except as int) {
        let rest = draws.drop_first();
        assert forall|k: int| 0 <= k < rest.len() implies lo <= #[trigger] rest[k] <= hi by {
            assert(rest[k] == draws[k + 1]);
        }
        lemma_first_eligible(ps, rest, except, lo, hi);
    }
}

/// The first eligible index among the sampled `draws`, `except` excluded.
pub fn pick_friendless(pieces: &[Piece; CLASSIC_PIECES_N], draws: &Vec<usize>, except: usize) -> (r:
    Option<usize>)
    requires
        forall|k: int| 0 <= k < draws.len() ==> #[trigger] draws[k] < CLASSIC_PIECES_N,
    ensures
        r == first_eligible(pieces@, draws@, except),
{
    let mut k: usize = 0;
    assert(draws@.subrange(0, draws.len() as int) =~= draws@);
    while k < draws.len()
        invariant
            k <= draws.len(),
            forall|m: int| 0 <= m < draws.len() ==> #[trigger] draws[m] < CLASSIC_PIECES_N,
            first_eligible(pieces@, draws@, except) == first_eligible(
                pieces@,
                draws@.subrange(k as int, draws.len() as int),
                except,
            ),
        decreases draws.len() - k,
    {
        let i = draws[k];
        let rest = Ghost(draws@.subrange(k as int, draws.len() as int));
        assert(rest@[0] == i);
        if pieces[i].friend.is_none() && pieces[i].class != Class::King && pieces[i].class
            != Class::Queen && i != except {
            return Some(i);
        }
        assert(rest@.drop_first() =~= draws@.subrange(k + 1, draws.len() as int));
        k += 1;
    }
    assert(draws@.subrange(k as int, draws.len() as int) =~= Seq::<usize>::empty());
    None
}

/// Six indices drawn uniformly from `lo..=hi`: the samples of one search.
fn sample_indices(lo: usize, hi: usize) -> (draws: Vec<usize>)
    requires
        lo <= hi,
    ensures
        draws.len() == SEARCH_ATTEMPTS,
        forall|m: int| 0 <= m < draws.len() ==> lo <= #[trigger] draws[m] <= hi,
{
    let mut draws: Vec<usize> = Vec::new();
    let mut k: usize = 0;
    while k < SEARCH_ATTEMPTS
        invariant
            lo <= hi,
            draws.len() == k,
            k <= SEARCH_ATTEMPTS,
            forall|m: int| 0 <= m < draws.len() ==> lo <= #[trigger] draws[m] <= hi,
        decreases SEARCH_ATTEMPTS - k,
    {
        draws.push(draw_between(lo, hi));
        k += 1;
    }
    draws
}

/// Piece `i` had no friend in `old` and has one in `new`.
pub open spec fn gained(old: Seq<Piece>, new: Seq<Piece>, i: int) -> bool {
    old[i].friend.is_none() && new[i].friend.is_some()
}

/// How many pieces with an index in `lo..hi` gained a friend from `old` to `new`.
pub open spec fn gained_count(old: Seq<Piece>, new: Seq<Piece>, lo: int, hi: int) -> int
    decreases hi - lo,
{
    if hi <= lo {
        0
    } else {
        gained_count(old, new, lo, hi - 1) + if gained(old, new, hi - 1) {
            1int
        } else {
            0int
        }
    }
}

/// The count reads friend fields in `lo..hi` only.
proof fn lemma_gained_frame(
    o1: Seq<Piece>,
    n1: Seq<Piece>,
    o2: Seq<Piece>,
    n2: Seq<Piece>,
    lo: int,
    hi: int,
)
    requires
        forall|i: int|
            lo <= i < hi ==> #[trigger] o1[i].friend == o2[i].friend && n1[i].friend
                == n2[i].friend,
    ensures
        gained_count(o1, n1, lo, hi) == gained_count(o2, n2, lo, hi),
    decreases hi - lo,
{
    if hi > lo {
        assert(o1[hi - 1].friend == o2[hi - 1].friend);
        lemma_gained_frame(o1, n1, o2, n2, lo, hi - 1);
    }
}

/// Nothing is gained between a set and itself.
proof fn lemma_gained_none(ps: Seq<Piece>, lo: int, hi: int)
    ensures
        gained_count(ps, ps, lo, hi) == 0,
    decreases hi - lo,
{
    if hi > lo {
        lemma_gained_none(ps, lo, hi - 1);
    }
}

/// Two more pieces gaining a friend add two to the count of a range that
/// holds them.
proof fn lemma_gained_two(
    old: Seq<Piece>,
    n1: Seq<Piece>,
    n2: Seq<Piece>,
    lo: int,
    hi: int,
    a: int,
    b: int,
)
    requires
        a != b,
        old[a].friend.is_none() && n1[a].friend.is_none() && n2[a].friend.is_some(),
        old[b].friend.is_none() && n1[b].friend.is_none() && n2[b].friend.is_some(),
        forall|i: int| lo <= i < hi && i != a && i != b ==> #[trigger] n2[i].friend == n1[i].friend,
    ensures
        gained_count(old, n2, lo, hi) == gained_count(old, n1, lo, hi) + (if lo <= a < hi {
            1int
        } else {
            0int
        }) + (if lo <= b < hi {
            1int
        } else {
            0int
        }),
    decreases hi - lo,
{
    if hi > lo {
        lemma_gained_two(old, n1, n2, lo, hi - 1, a, b);
        if hi - 1 != a && hi - 1 != b {
            assert(n2[hi - 1].friend == n1[hi - 1].friend);
        }
    }
}

/// Makes `a` and `b`, two eligible pieces of one group, friends of each other.
fn link(pieces: &mut [Piece; CLASSIC_PIECES_N], a: usize, b: usize)
    requires
        a != b,
        a < CLASSIC_PIECES_N,
        b < CLASSIC_PIECES_N,
        a / 8 == b / 8,
        is_classic_layout(old(pieces)@),
        friendships_valid(old(pieces)@),
        eligible(old(pieces)@, a as int, -1),
        eligible(old(pieces)@, b as int, -1),
    ensures
        is_classic_layout(final(pieces)@),
        friendships_valid(final(pieces)@),
        friends_added(old(pieces)@, final(pieces)@),
        final(pieces)@[a as int].friend == Some(b),
        final(pieces)@[b as int].friend == Some(a),
        forall|i: int|
            0 <= i < CLASSIC_PIECES_N && i != a && i != b ==> #[trigger] final(pieces)@[i]
                == old(pieces)@[i],
{
    let ghost before = pieces@;
    pieces[a].friend = Some(b);
    pieces[b].friend = Some(a);
    let ghost after = pieces@;
    assert(classic_at(before[a as int], a as int));
    assert(classic_at(before[b as int], b as int));
    assert forall|i: int| 0 <= i < CLASSIC_PIECES_N implies #[trigger] classic_at(after[i], i) by {
        assert(classic_at(before[i], i));
    }
    assert forall|i: int| 0 <= i < after.len() implies #[trigger] friend_ok(after, i) by {
        assert(friend_ok(before, i));
        if i != a && i != b {
            if let Some(j) = before[i].friend {
                assert(friend_ok(before, j as int));
            }
        }
    }
    assert forall|i: int| 0 <= i < before.len() implies #[trigger] same_identity(
        before[i],
        after[i],
    ) && (before[i].friend.is_some() ==> after[i].friend == before[i].friend) by {}
}

/// `new` is `old` with `a` and `b` made friends of each other.
pub open spec fn paired(old: Seq<Piece>, new: Seq<Piece>, a: int, b: int) -> bool {
    &&& new.len() == old.len()
    &&& new[a].friend == Some(b as usize)
    &&& new[b].friend == Some(a as usize)
    &&& forall|i: int| 0 <= i < old.len() && i != a && i != b ==> #[trigger] new[i] == old[i]
}

/// One attempt at a friendship in the group of eight that starts at `start`.
/// The first eligible piece among the samples `first`, and the first eligible
/// piece other than that one among the samples `second`, become friends. When
/// either search finds nothing, nothing changes.
pub fn attempt_pair(
    pieces: &mut [Piece; CLASSIC_PIECES_N],
    start: usize,
    first: &Vec<usize>,
    second: &Vec<usize>,
) -> (linked: bool)
    requires
        start % 8 == 0,
        start < CLASSIC_PIECES_N,
        is_classic_layout(old(pieces)@),
        friendships_valid(old(pieces)@),
        forall|m: int| 0 <= m < first.len() ==> start <= #[trigger] first[m] < start + 8,
        forall|m: int| 0 <= m < second.len() ==> start <= #[trigger] second[m] < start + 8,
    ensures
        linked == (first_eligible(old(pieces)@, first@, usize::MAX) matches Some(a)
            && first_eligible(old(pieces)@, second@, a) is Some),
        linked ==> paired(
            old(pieces)@,
            final(pieces)@,
            first_eligible(old(pieces)@, first@, usize::MAX)->0 as int,
            first_eligible(
                old(pieces)@,
                second@,
                first_eligible(old(pieces)@, first@, usize::MAX)->0,
            )->0 as int,
        ),
        !linked ==> final(pieces)@ == old(pieces)@,
        is_classic_layout(final(pieces)@),
        friendships_valid(final(pieces)@),
        friends_added(old(pieces)@, final(pieces)@),
{
    proof {
        lemma_first_eligible(pieces@, first@, usize::MAX, start as int, start + 7);
    }
    match pick_friendless(pieces, first, usize::MAX) {
        None => false,
        Some(a) => {
            proof {
                lemma_first_eligible(pieces@, second@, a, start as int, start + 7);
            }
            match pick_friendless(pieces, second, a) {
                None => false,
                Some(b) => {
                    link(pieces, a, b);
                    true
                },
            }
        },
    }
}

/// Makes `attempts` attempts at pairing two free pieces of the group of eight
/// that starts at `start`, each on fresh samples, and returns how many of them
/// succeeded: exactly twice that many pieces of the group gained a friend.
pub fn befriend_group(pieces: &mut [Piece; CLASSIC_PIECES_N], start: usize, attempts: usize) -> (pairs:
    usize)
    requires
        start % 8 == 0,
        start < CLASSIC_PIECES_N,
        is_classic_layout(old(pieces)@),
        friendships_valid(old(pieces)@),
    ensures
        pairs <= attempts,
        gained_count(old(pieces)@, final(pieces)@, start as int, start + 8) == 2 * pairs,
        attempts == 0 ==> final(pieces)@ == old(pieces)@,
        is_classic_layout(final(pieces)@),
        friendships_valid(final(pieces)@),
        friends_added(old(pieces)@, final(pieces)@),
        forall|i: int|
            0 <= i < CLASSIC_PIECES_N && !(start <= i < start + 8) ==> #[trigger] final(pieces)@[i]
                == old(pieces)@[i],
{
    let mut pairs: usize = 0;
    let mut t: usize = 0;
    proof {
        lemma_gained_none(pieces@, start as int, start + 8);
    }
    while t < attempts
        invariant
            start % 8 == 0,
            start < CLASSIC_PIECES_N,
            pairs <= t <= attempts,
            t == 0 ==> pieces@ == old(pieces)@,
            gained_count(old(pieces)@, pieces@, start as int, start + 8) == 2 * pairs,
            is_classic_layout(pieces@),
            friendships_valid(pieces@),
            friends_added(old(pieces)@, pieces@),
            forall|i: int|
                0 <= i < CLASSIC_PIECES_N && !(start <= i < start + 8) ==> #[trigger] pieces@[i]
                    == old(pieces)@[i],
        decreases attempts - t,
    {
        let first = sample_indices(start, start + 7);
        let second = sample_indices(start, start + 7);
        let ghost before = pieces@;
        let linked = attempt_pair(pieces, start, &first, &second);
        proof {
            let after = pieces@;
            if linked {
                let a = first_eligible(before, first@, usize::MAX)->0;
                let b = first_eligible(before, second@, a)->0;
                lemma_first_eligible(before, first@, usize::MAX, start as int, start + 7);
                lemma_first_eligible(before, second@, a, start as int, start + 7);
                assert(same_identity(old(pieces)@[a as int], before[a as int]));
                assert(same_identity(old(pieces)@[b as int], before[b as int]));
                lemma_gained_two(
                    old(pieces)@,
                    before,
                    after,
                    start as int,
                    start + 8,
                    a as int,
                    b as int,
                );
            }
            assert forall|i: int| 0 <= i < before.len() implies #[trigger] same_identity(
                old(pieces)@[i],
                after[i],
            ) && (old(pieces)@[i].friend.is_some() ==> after[i].friend == old(
                pieces,
            )@[i].friend) by {
                assert(same_identity(old(pieces)@[i], before[i]));
                assert(same_identity(before[i], after[i]));
            }
        }
        if linked {
            pairs += 1;
        }
        t += 1;
    }
    pairs
}

/// How one side's friendships were drawn: the attempts each pass made and the
/// pairs that came of them.
pub struct FriendshipTally {
    pub pawn_attempts: usize,
    pub pawn_pairs: usize,
    pub special_attempts: usize,
    pub special_pairs: usize,
}

/// First index of the pawns of `side`.
pub open spec fn pawn_start(side: Side) -> int {
    match side {
        Side::Black => 8,
        Side::White => 16,
    }
}

/// First index of the special pieces of `side`.
pub open spec fn special_start(side: Side) -> int {
    match side {
        Side::Black => 0,
        Side::White => 24,
    }
}

/// Draws the friendships of `side`: two to four attempts among its pawns, then
/// none to three among its special pieces. Each pass makes exactly twice as
/// many new friends in its group as it formed pairs. The other side is left
/// alone.
pub fn befriend_side(pieces: &mut [Piece; CLASSIC_PIECES_N], side: Side) -> (r: FriendshipTally)
    requires
        is_classic_layout(old(pieces)@),
        friendships_valid(old(pieces)@),
    ensures
        2 <= r.pawn_attempts <= 4,
        r.pawn_pairs <= r.pawn_attempts,
        r.special_attempts <= 3,
        r.special_pairs <= r.special_attempts,
        gained_count(old(pieces)@, final(pieces)@, pawn_start(side), pawn_start(side) + 8) == 2
            * r.pawn_pairs,
        gained_count(old(pieces)@, final(pieces)@, special_start(side), special_start(side) + 8)
            == 2 * r.special_pairs,
        is_classic_layout(final(pieces)@),
        friendships_valid(final(pieces)@),
        friends_added(old(pieces)@, final(pieces)@),
        forall|i: int|
            0 <= i < CLASSIC_PIECES_N && classic_side(i) != side ==> #[trigger] final(pieces)@[i]
                == old(pieces)@[i],
{
    let s: usize = match side {
        Side::Black => 0,
        Side::White => 1,
    };
    let ghost start = pieces@;
    let pawn_attempts = draw_between(2, 4);
    let pawn_pairs = befriend_group(pieces, 8 + s * 8, pawn_attempts);
    let ghost middle = pieces@;
    let special_attempts = draw_between(0, 3);
    let special_pairs = befriend_group(pieces, s * 24, special_attempts);
    proof {
        let end = pieces@;
        let p = pawn_start(side);
        let q = special_start(side);
        assert forall|i: int| p <= i < p + 8 implies #[trigger] start[i].friend == start[i].friend
            && middle[i].friend == end[i].friend by {
            assert(end[i] == middle[i]);
        }
        lemma_gained_frame(start, middle, start, end, p, p + 8);
        assert forall|i: int| q <= i < q + 8 implies #[trigger] middle[i].friend == start[i].friend
            && end[i].friend == end[i].friend by {
            assert(middle[i] == start[i]);
        }
        lemma_gained_frame(middle, end, start, end, q, q + 8);
        assert forall|i: int| 0 <= i < start.len() implies #[trigger] same_identity(start[i], end[i])
            && (start[i].friend.is_some() ==> end[i].friend == start[i].friend) by {
            assert(same_identity(start[i], middle[i]));
            assert(same_identity(middle[i], end[i]));
        }
        assert forall|i: int|
            0 <= i < CLASSIC_PIECES_N && classic_side(i) != side implies #[trigger] end[i]
                == start[i] by {
            assert(end[i] == middle[i]);
        }
    }
    FriendshipTally { pawn_attempts, pawn_pairs, special_attempts, special_pairs }
}

/// Draws the friendships of a classic set, side by side. Friendships already
/// there stay; new ones keep every rule of `friendships_valid`.
pub fn generate_relationships(pieces: &mut [Piece; CLASSIC_PIECES_N])
    requires
        is_classic_layout(old(pieces)@),
        friendships_valid(old(pieces)@),
    ensures
        is_classic_layout(final(pieces)@),
        friendships_valid(final(pieces)@),
        friends_added(old(pieces)@, final(pieces)@),
{
    let ghost start = pieces@;
    befriend_side(pieces, Side::Black);
    let ghost middle = pieces@;
    befriend_side(pieces, Side::White);
    proof {
        lemma_friends_added_trans(start, middle, pieces@);
    }
}

/// Adding friendships twice is adding friendships.
proof fn lemma_friends_added_trans(a: Seq<Piece>, b: Seq<Piece>, c: Seq<Piece>)
    requires
        friends_added(a, b),
        friends_added(b, c),
    ensures
        friends_added(a, c),
{
    assert forall|i: int| 0 <= i < a.len() implies #[trigger] same_identity(a[i], c[i]) && (
    a[i].friend.is_some() ==> c[i].friend == a[i].friend) by {
        assert(same_identity(a[i], b[i]));
        assert(same_identity(b[i], c[i]));
    }
}

// ---------------------------------------------------------------------------
// Laws of a valid set of friendships

/// The King and the Queen have no friend.
pub proof fn lemma_royals_friendless(ps: Seq<Piece>, i: int)
    requires
        friendships_valid(ps),
        0 <= i < ps.len(),
        is_royal(ps[i].class),
    ensures
        ps[i].friend.is_none(),
{
    assert(friend_ok(ps, i));
}

/// Friendship is mutual, and joins two pieces of the same side and sub-group.
pub proof fn lemma_friendship_mutual(ps: Seq<Piece>, a: int, b: usize)
    requires
        friendships_valid(ps),
        0 <= a < ps.len(),
        ps[a].friend == Some(b),
    ensures
        b < ps.len(),
        ps[b as int].friend == Some(a as usize),
        same_group(ps, a, b as int),
{
    assert(friend_ok(ps, a));
}

/// No piece is the friend of two pieces.
pub proof fn lemma_one_friend_each(ps: Seq<Piece>, a: int, b: int, k: usize)
    requires
        friendships_valid(ps),
        ps.len() <= usize::MAX,
        0 <= a < ps.len(),
        0 <= b < ps.len(),
        ps[a].friend == Some(k),
        ps[b].friend == Some(k),
    ensures
        a == b,
{
    assert(friend_ok(ps, a));
    assert(friend_ok(ps, b));
}

} // verus!
