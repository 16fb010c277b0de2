//! The mathematical model of the install highway: what the frame stores,
//! stated over the heights that each install connects.

use vstd::prelude::*;

verus! {

/// The heights that an install connects, and whether it is tailless.
#[derive(Clone, Copy, Debug, PartialEq, Eq, Structural)]
pub struct Metadata {
    pub source_height: usize,
    pub destination_height: usize,
    pub tailless: bool,
}

/// Every install leads strictly upwards.
pub open spec fn rising(highway: Seq<Metadata>) -> bool {
    forall|i: int|
        0 <= i < highway.len() ==> (#[trigger] highway[i]).source_height
            < highway[i].destination_height
}

/// Every install starts where the one before it ends.
pub open spec fn linked(highway: Seq<Metadata>) -> bool {
    forall|i: int, j: int|
        0 <= i && j == i + 1 && j < highway.len() ==> (#[trigger] highway[i]).destination_height
            == (#[trigger] highway[j]).source_height
}

/// A later install starts no earlier than an earlier one ends.
pub open spec fn ordered(highway: Seq<Metadata>) -> bool {
    forall|i: int, j: int|
        0 <= i < j < highway.len() ==> (#[trigger] highway[i]).destination_height <= (
        #[trigger] highway[j]).source_height
}

/// The shape of every highway: a chain of rising installs.
pub open spec fn chained(highway: Seq<Metadata>) -> bool {
    rising(highway) && linked(highway)
}

/// The height that the highway leads to; `base` while it is empty.
pub open spec fn top_of(base: int, highway: Seq<Metadata>) -> int {
    if highway.len() == 0 {
        base
    } else {
        highway.last().destination_height as int
    }
}

/// Index of the install that starts at `height`, if there is one.
pub open spec fn locate_source(highway: Seq<Metadata>, height: int) -> Option<int>
    decreases highway.len(),
{
    if highway.len() == 0 {
        None
    } else if highway.last().source_height == height {
        Some(highway.len() - 1)
    } else {
        locate_source(highway.drop_last(), height)
    }
}

/// Index of the install that ends at `height`, if there is one.
pub open spec fn locate_destination(highway: Seq<Metadata>, height: int) -> Option<int>
    decreases highway.len(),
{
    if highway.len() == 0 {
        None
    } else if highway.last().destination_height == height {
        Some(highway.len() - 1)
    } else {
        locate_destination(highway.drop_last(), height)
    }
}

/// An install grows the highway when it ends above the top.
pub open spec fn grows(base: int, highway: Seq<Metadata>, install: Metadata) -> bool {
    install.destination_height > top_of(base, highway)
}

/// An install improves the highway when it starts where some install
/// starts and ends where some install ends, and either spans more than one
/// install or is tailless where the install it would replace is not.
pub open spec fn improves(highway: Seq<Metadata>, install: Metadata) -> bool {
    match (
        locate_source(highway, install.source_height as int),
        locate_destination(highway, install.destination_height as int),
    ) {
        (Some(first), Some(last)) => first < last || (install.tailless
            && !highway[last].tailless),
        _ => false,
    }
}

/// What is kept of `items` when `install` is spliced in: the items up to
/// the install that ends where the new one starts, then `item`, then the
/// items from the install that starts where the new one ends.
pub open spec fn splice<T>(highway: Seq<Metadata>, items: Seq<T>, install: Metadata, item: T) -> Seq<
    T,
> {
    let prefix = match locate_destination(highway, install.source_height as int) {
        Some(to) => items.take(to + 1),
        None => Seq::empty(),
    };
    let suffix = match locate_source(highway, install.destination_height as int) {
        Some(from) => items.skip(from),
        None => Seq::empty(),
    };
    prefix.push(item) + suffix
}

/// The highway once `install` is spliced in.
pub open spec fn acquire(highway: Seq<Metadata>, install: Metadata) -> Seq<Metadata> {
    splice(highway, highway, install, install)
}

/// Where an observer at `height` starts reading the highway: just past
/// the last tailless install that ends at or below `height`.
pub open spec fn start_index(highway: Seq<Metadata>, height: int) -> nat
    decreases highway.len(),
{
    if highway.len() == 0 {
        0
    } else if highway.last().tailless && highway.last().destination_height <= height {
        highway.len()
    } else {
        start_index(highway.drop_last(), height)
    }
}

/// The latest tailless point at or below `height`: where the last tailless
/// install that an observer at `height` has passed ends; `base` if none.
pub open spec fn anchor(base: int, highway: Seq<Metadata>, height: int) -> int {
    let start = start_index(highway, height);
    if start == 0 {
        base
    } else {
        highway[start - 1].destination_height as int
    }
}

/// A chain is ordered.
pub proof fn lemma_chained_ordered(highway: Seq<Metadata>)
    requires
        chained(highway),
    ensures
        ordered(highway),
{
    assert forall|i: int, j: int| 0 <= i < j < highway.len() implies (
    #[trigger] highway[i]).destination_height <= (#[trigger] highway[j]).source_height by {
        lemma_chain_reach(highway, i, j);
    }
}

proof fn lemma_chain_reach(highway: Seq<Metadata>, i: int, j: int)
    requires
        chained(highway),
        0 <= i < j < highway.len(),
    ensures
        highway[i].destination_height <= highway[j].source_height,
    decreases j - i,
{
    if j == i + 1 {
        assert(highway[i].destination_height == highway[j].source_height);
    } else {
        lemma_chain_reach(highway, i, j - 1);
        assert(highway[j - 1].source_height < highway[j - 1].destination_height);
        assert(highway[j - 1].destination_height == highway[j].source_height);
    }
}

/// In a chain, `locate_source` finds the one install that starts at
/// `height`, and none where there is none.
pub proof fn lemma_locate_source(highway: Seq<Metadata>, height: int)
    requires
        chained(highway),
    ensures
        match locate_source(highway, height) {
            Some(index) => 0 <= index < highway.len() && highway[index].source_height == height,
            None => forall|i: int|
                0 <= i < highway.len() ==> (#[trigger] highway[i]).source_height != height,
        },
        forall|i: int|
            0 <= i < highway.len() && (#[trigger] highway[i]).source_height == height
                ==> locate_source(highway, height) == Some(i),
    decreases highway.len(),
{
    if highway.len() > 0 {
        let shorter = highway.drop_last();
        assert(chained(shorter));
        lemma_locate_source(shorter, height);
        lemma_chained_ordered(highway);
        if highway.last().source_height == height {
            assert forall|i: int|
                0 <= i < highway.len() && (#[trigger] highway[i]).source_height
                    == height implies i == highway.len() - 1 by {
                if i < highway.len() - 1 {
                    assert(highway[i].source_height < highway[i].destination_height);
                    assert(highway[i].destination_height <= highway[highway.len() - 1].source_height);
                }
            }
        } else {
            assert forall|i: int| 0 <= i < highway.len() implies (#[trigger] highway[i])
                == if i < shorter.len() {
                shorter[i]
            } else {
                highway.last()
            } by {}
        }
    }
}

/// In a chain, `locate_destination` finds the one install that ends at
/// `height`, and none where there is none.
pub proof fn lemma_locate_destination(highway: Seq<Metadata>, height: int)
    requires
        chained(highway),
    ensures
        match locate_destination(highway, height) {
            Some(index) => 0 <= index < highway.len() && highway[index].destination_height
                == height,
            None => forall|i: int|
                0 <= i < highway.len() ==> (#[trigger] highway[i]).destination_height != height,
        },
        forall|i: int|
            0 <= i < highway.len() && (#[trigger] highway[i]).destination_height == height
                ==> locate_destination(highway, height) == Some(i),
    decreases highway.len(),
{
    if highway.len() > 0 {
        let shorter = highway.drop_last();
        assert(chained(shorter));
        lemma_locate_destination(shorter, height);
        lemma_chained_ordered(highway);
        if highway.last().destination_height == height {
            assert forall|i: int|
                0 <= i < highway.len() && (#[trigger] highway[i]).destination_height
                    == height implies i == highway.len() - 1 by {
                if i < highway.len() - 1 {
                    assert(highway[i].destination_height <= highway[highway.len() - 1].source_height);
                    assert(highway[highway.len() - 1].source_height < highway[highway.len()
                        - 1].destination_height);
                }
            }
        } else {
            assert forall|i: int| 0 <= i < highway.len() implies (#[trigger] highway[i])
                == if i < shorter.len() {
                shorter[i]
            } else {
                highway.last()
            } by {}
        }
    }
}

/// The invariant of a frame's highway: a chain that ends above `base`
/// wherever it ends.
pub open spec fn well_formed(base: int, highway: Seq<Metadata>) -> bool {
    &&& chained(highway)
    &&& forall|i: int| 0 <= i < highway.len() ==> base < (#[trigger] highway[i]).destination_height
}

/// The highway starts at or above `base`.
pub open spec fn rooted(base: int, highway: Seq<Metadata>) -> bool {
    highway.len() > 0 ==> base <= highway[0].source_height
}

/// The highway after an update: `install` is spliced in if it grows or
/// improves the highway, and dropped otherwise.
pub open spec fn update(base: int, highway: Seq<Metadata>, install: Metadata) -> Seq<Metadata> {
    if grows(base, highway, install) || improves(highway, install) {
        acquire(highway, install)
    } else {
        highway
    }
}

/// The highway that a frame at `base` holds after it has seen `installs`.
pub open spec fn build(base: int, installs: Seq<Metadata>) -> Seq<Metadata>
    decreases installs.len(),
{
    if installs.len() == 0 {
        Seq::empty()
    } else {
        update(base, build(base, installs.drop_last()), installs.last())
    }
}

/// Splicing an install that grows or improves a well-formed highway
/// leaves it well formed, and never lowers its top.
pub proof fn lemma_acquire(base: int, highway: Seq<Metadata>, install: Metadata)
    requires
        well_formed(base, highway),
        install.source_height < install.destination_height,
        grows(base, highway, install) || improves(highway, install),
    ensures
        well_formed(base, acquire(highway, install)),
        acquire(highway, install).len() > 0,
        top_of(base, acquire(highway, install)) >= top_of(base, highway),
        grows(base, highway, install) ==> top_of(base, acquire(highway, install))
            == install.destination_height,
        rooted(base, highway) && base <= install.source_height ==> rooted(
            base,
            acquire(highway, install),
        ),
{
    let source = install.source_height as int;
    let destination = install.destination_height as int;
    lemma_locate_destination(highway, source);
    lemma_locate_source(highway, destination);
    lemma_locate_destination(highway, destination);
    lemma_chained_ordered(highway);
    let prefix = match locate_destination(highway, source) {
        Some(to) => highway.take(to + 1),
        None => Seq::empty(),
    };
    let suffix = match locate_source(highway, destination) {
        Some(from) => highway.skip(from),
        None => Seq::empty(),
    };
    let after = acquire(highway, install);
    assert(after == prefix.push(install) + suffix);
    let p = prefix.len() as int;
    assert(after.len() == p + 1 + suffix.len());
    assert forall|i: int| 0 <= i < after.len() implies (#[trigger] after[i]) == if i < p {
        highway[i]
    } else if i == p {
        install
    } else {
        suffix[i - p - 1]
    } by {}
    if top_of(base, highway) < base {
        assert(highway.len() > 0);
        assert(base < highway[highway.len() - 1].destination_height);
    }
    if suffix.len() == 0 && !grows(base, highway, install) {
        let last = locate_destination(highway, destination).unwrap();
        if last < highway.len() - 1 {
            assert(highway[last].destination_height == highway[last + 1].source_height);
        }
    }
    if suffix.len() > 0 {
        let from = locate_source(highway, destination).unwrap();
        assert(suffix.last() == highway.last());
        assert(after.last() == suffix.last());
        assert(highway[from].source_height < highway[from].destination_height);
        assert(forall|i: int| 0 <= i < suffix.len() ==> suffix[i] == highway[from + i]);
    }
    assert forall|i: int| 0 <= i < after.len() implies (#[trigger] after[i]).source_height
        < after[i].destination_height && base < after[i].destination_height by {
        if i < p {
            assert(after[i] == highway[i]);
        } else if i > p {
            let from = locate_source(highway, destination).unwrap();
            assert(after[i] == highway[from + (i - p - 1)]);
        } else {
            if !grows(base, highway, install) {
                let last = locate_destination(highway, destination).unwrap();
                assert(base < highway[last].destination_height);
            }
        }
    }
    assert forall|i: int, j: int| 0 <= i && j == i + 1 && j < after.len() implies (
    #[trigger] after[i]).destination_height == (#[trigger] after[j]).source_height by {
        if j < p {
            assert(highway[i].destination_height == highway[j].source_height);
        } else if j == p {
            assert(after[i] == highway[p - 1]);
        } else if i == p {
            let from = locate_source(highway, destination).unwrap();
            assert(after[j] == highway[from]);
        } else {
            let from = locate_source(highway, destination).unwrap();
            assert(after[i] == highway[from + (i - p - 1)]);
            assert(after[j] == highway[from + (j - p - 1)]);
            assert(highway[from + (i - p - 1)].destination_height == highway[from + (j - p
                - 1)].source_height);
        }
    }
    if p > 0 {
        assert(after[0] == highway[0]);
    }
}

/// An update leaves a well-formed highway well formed, never lowers its
/// top, and keeps it rooted when the install starts at or above `base`.
pub proof fn lemma_update(base: int, highway: Seq<Metadata>, install: Metadata)
    requires
        well_formed(base, highway),
        install.source_height < install.destination_height,
    ensures
        well_formed(base, update(base, highway, install)),
        top_of(base, update(base, highway, install)) >= top_of(base, highway),
        rooted(base, highway) && base <= install.source_height ==> rooted(
            base,
            update(base, highway, install),
        ),
{
    if grows(base, highway, install) || improves(highway, install) {
        lemma_acquire(base, highway, install);
    }
}

/// Whatever rising installs a frame has seen, its highway is well formed;
/// it is rooted if every install started at or above `base`.
pub proof fn lemma_build(base: int, installs: Seq<Metadata>)
    requires
        rising(installs),
    ensures
        well_formed(base, build(base, installs)),
        top_of(base, build(base, installs)) >= base,
        (forall|i: int| 0 <= i < installs.len() ==> base <= (#[trigger] installs[i]).source_height)
            ==> rooted(base, build(base, installs)),
    decreases installs.len(),
{
    if installs.len() > 0 {
        let earlier = installs.drop_last();
        assert(rising(earlier)) by {
            assert forall|i: int| 0 <= i < earlier.len() implies (#[trigger] earlier[i]).source_height
                < earlier[i].destination_height by {
                assert(earlier[i] == installs[i]);
            }
        }
        lemma_build(base, earlier);
        assert(installs.last() == installs[installs.len() - 1]);
        lemma_update(base, build(base, earlier), installs.last());
        if forall|i: int| 0 <= i < installs.len() ==> base <= (#[trigger] installs[i]).source_height {
            assert forall|i: int| 0 <= i < earlier.len() implies base <= (
            #[trigger] earlier[i]).source_height by {
                assert(earlier[i] == installs[i]);
            }
        }
    }
}

/// `start_index` points just past a tailless install that ends at or
/// below `height`, and no such install comes later.
pub proof fn lemma_start_index(highway: Seq<Metadata>, height: int)
    ensures
        start_index(highway, height) <= highway.len(),
        start_index(highway, height) > 0 ==> highway[start_index(highway, height) - 1].tailless
            && highway[start_index(highway, height) - 1].destination_height <= height,
        forall|i: int|
            start_index(highway, height) <= i < highway.len() ==> !((#[trigger] highway[i]).tailless
                && highway[i].destination_height <= height),
    decreases highway.len(),
{
    if highway.len() > 0 && !(highway.last().tailless && highway.last().destination_height
        <= height) {
        let shorter = highway.drop_last();
        lemma_start_index(shorter, height);
        assert forall|i: int| start_index(highway, height) <= i < highway.len() implies !((
        #[trigger] highway[i]).tailless && highway[i].destination_height <= height) by {
            if i < shorter.len() {
                assert(highway[i] == shorter[i]);
            }
        }
        if start_index(highway, height) > 0 {
            assert(highway[start_index(highway, height) - 1] == shorter[start_index(
                highway,
                height,
            ) - 1]);
        }
    }
}

/// Where an observer stands: the height of its current view, and the
/// height of the last tailless view it has installed.
pub struct Position {
    pub current: int,
    pub last_installable: int,
}

/// An observer takes an install that starts at or after its last tailless
/// view and leads above its current one; it ignores any other.
pub open spec fn advance(position: Position, install: Metadata) -> Position {
    if position.last_installable <= install.source_height && position.current
        < install.destination_height {
        Position {
            current: install.destination_height as int,
            last_installable: if install.tailless {
                install.destination_height as int
            } else {
                position.last_installable
            },
        }
    } else {
        position
    }
}

/// Where an observer stands after it has gone through `installs` in order.
pub open spec fn replay(position: Position, installs: Seq<Metadata>) -> Position
    decreases installs.len(),
{
    if installs.len() == 0 {
        position
    } else {
        replay(advance(position, installs.first()), installs.drop_first())
    }
}

/// What a frame hands an observer at `height`: the highway from
/// `start_index` on, or nothing at or above the top.
pub open spec fn lookup<T>(base: int, highway: Seq<Metadata>, items: Seq<T>, height: int) -> Seq<T> {
    let clamped = if height < base {
        base
    } else {
        height
    };
    if clamped < top_of(base, highway) {
        items.skip(start_index(highway, clamped) as int)
    } else {
        Seq::empty()
    }
}

proof fn lemma_replay_suffix(highway: Seq<Metadata>, from: int, position: Position)
    requires
        chained(highway),
        0 <= from < highway.len(),
        position.last_installable <= highway[from].source_height,
    ensures
        replay(position, highway.skip(from)).current >= highway.last().destination_height,
    decreases highway.len() - from,
{
    let rest = highway.skip(from);
    assert(rest.first() == highway[from]);
    assert(rest.drop_first() == highway.skip(from + 1));
    let next = advance(position, highway[from]);
    if from + 1 < highway.len() {
        assert(highway[from].source_height < highway[from].destination_height);
        assert(highway[from].destination_height == highway[from + 1].source_height);
        lemma_replay_suffix(highway, from + 1, next);
    } else {
        assert(highway.skip(from + 1).len() == 0);
        assert(replay(next, highway.skip(from + 1)) == next);
    }
}

/// An observer at or above the base of a well-formed, rooted highway
/// ends at or above the top by replaying what the frame's lookup hands it,
/// provided that, below the top, its last tailless view is no later than
/// the frame's latest tailless point at or below its height.
pub proof fn lemma_lookup_reaches_top(
    base: int,
    highway: Seq<Metadata>,
    current: int,
    last_installable: int,
)
    requires
        well_formed(base, highway),
        rooted(base, highway),
        base <= current,
        current < top_of(base, highway) ==> last_installable <= anchor(base, highway, current),
    ensures
        replay(
            Position { current, last_installable },
            lookup(base, highway, highway, current),
        ).current >= top_of(base, highway),
{
    if current < top_of(base, highway) {
        lemma_start_index(highway, current);
        let start = start_index(highway, current) as int;
        if start > 0 {
            assert(highway[start - 1].destination_height == highway[start].source_height);
        }
        lemma_replay_suffix(highway, start, Position { current, last_installable });
    }
}

/// Whatever installs a frame has seen, each leading
/// upwards from a view at or above the genesis height, an observer at or
/// above the genesis height that replays the frame's lookup for its height
/// ends at or above the top. Below the top, the observer's last tailless
/// view is to be no later than the frame's latest tailless point at or
/// below the observer's height.
pub proof fn lemma_frame_correctness(
    base: int,
    installs: Seq<Metadata>,
    current: int,
    last_installable: int,
)
    requires
        rising(installs),
        forall|i: int| 0 <= i < installs.len() ==> base <= (#[trigger] installs[i]).source_height,
        base <= current,
        current < top_of(base, build(base, installs)) ==> last_installable <= anchor(
            base,
            build(base, installs),
            current,
        ),
    ensures
        replay(
            Position { current, last_installable },
            lookup(base, build(base, installs), build(base, installs), current),
        ).current >= top_of(base, build(base, installs)),
{
    lemma_build(base, installs);
    lemma_lookup_reaches_top(base, build(base, installs), current, last_installable);
}

/// No update lowers the top, whether it takes the
/// install or drops it.
pub proof fn lemma_top_monotone(base: int, installs: Seq<Metadata>, install: Metadata)
    requires
        rising(installs),
        install.source_height < install.destination_height,
    ensures
        top_of(base, update(base, build(base, installs), install)) >= top_of(
            base,
            build(base, installs),
        ),
{
    lemma_build(base, installs);
    lemma_update(base, build(base, installs), install);
}

} // verus!
