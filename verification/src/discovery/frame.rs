use crate::data::ShiftVec;
use crate::discovery::highway::acquire;
use crate::discovery::highway::chained;
use crate::discovery::highway::grows;
use crate::discovery::highway::improves;
use crate::discovery::highway::lemma_acquire;
use crate::discovery::highway::lemma_chained_ordered;
use crate::discovery::highway::lemma_locate_destination;
use crate::discovery::highway::lemma_locate_source;
use crate::discovery::highway::lemma_start_index;
use crate::discovery::highway::locate_destination;
use crate::discovery::highway::locate_source;
use crate::discovery::highway::rooted;
use crate::discovery::highway::lookup;
use crate::discovery::highway::splice;
use crate::discovery::highway::start_index;
use crate::discovery::highway::top_of;
use crate::discovery::highway::well_formed;
use crate::discovery::highway::Metadata;
use crate::view::Committee;
use crate::view::Install;
use crate::view::Transition;
use vstd::prelude::*;

verus! {

/// The heights that `transition` connects, and whether it is tailless.
pub open spec fn metadata_of(transition: Transition) -> Metadata {
    Metadata {
        source_height: transition.spec_source().spec_height() as usize,
        destination_height: transition.spec_destination().spec_height() as usize,
        tailless: transition.spec_tailless(),
    }
}

/// The height up to which the lookup table is filled once the tailless
/// installs of `highway` have been accounted for.
spec fn covered(base: int, highway: Seq<Metadata>) -> int
    decreases highway.len(),
{
    if highway.len() == 0 {
        base
    } else if highway.last().tailless {
        highway.last().destination_height as int
    } else {
        covered(base, highway.drop_last())
    }
}

proof fn lemma_covered(base: int, highway: Seq<Metadata>)
    ensures
        covered(base, highway) == base || exists|i: int|
            0 <= i < highway.len() && (#[trigger] highway[i]).destination_height == covered(
                base,
                highway,
            ),
    decreases highway.len(),
{
    if highway.len() > 0 {
        if highway.last().tailless {
            assert(highway[highway.len() - 1].destination_height == covered(base, highway));
        } else {
            let shorter = highway.drop_last();
            lemma_covered(base, shorter);
            if covered(base, highway) != base {
                let i = choose|i: int|
                    0 <= i < shorter.len() && (#[trigger] shorter[i]).destination_height == covered(
                        base,
                        shorter,
                    );
                assert(highway[i] == shorter[i]);
            }
        }
    }
}

/// From the covered height on, the start index no longer depends on the
/// height.
proof fn lemma_start_index_stable(base: int, highway: Seq<Metadata>, low: int, high: int)
    requires
        covered(base, highway) <= low <= high,
    ensures
        start_index(highway, low) == start_index(highway, high),
    decreases highway.len(),
{
    if highway.len() > 0 && !highway.last().tailless {
        lemma_start_index_stable(base, highway.drop_last(), low, high);
    }
}

/// Installs that end above `height` do not move the start index.
proof fn lemma_start_index_cut(highway: Seq<Metadata>, cut: int, height: int)
    requires
        chained(highway),
        0 <= cut < highway.len(),
        height < highway[cut].destination_height,
    ensures
        start_index(highway, height) == start_index(highway.take(cut), height),
    decreases highway.len(),
{
    lemma_chained_ordered(highway);
    let shorter = highway.drop_last();
    if cut == highway.len() - 1 {
        assert(highway.take(cut) == shorter);
    } else {
        assert(highway[cut].destination_height <= highway[highway.len() - 1].source_height);
        assert(highway[highway.len() - 1].source_height < highway[highway.len()
            - 1].destination_height);
        assert(chained(shorter));
        assert(shorter[cut] == highway[cut]);
        lemma_start_index_cut(shorter, cut, height);
        assert(shorter.take(cut) == highway.take(cut));
    }
}

/// The install highway of one replica: for an observer at any height from
/// the genesis height up, the installs that lead it to the top.
pub struct Frame {
    base: usize,
    highway: Vec<Install>,
    metadata: Vec<Metadata>,
    lookup: ShiftVec<usize>,
}

impl Frame {
    /// The genesis height.
    pub closed spec fn base(&self) -> int {
        self.base as int
    }

    /// The installs of the highway, in order.
    pub closed spec fn highway(&self) -> Seq<Install> {
        self.highway@
    }

    /// What each install of the highway connects.
    pub closed spec fn metadata(&self) -> Seq<Metadata> {
        self.metadata@
    }

    /// The height that the highway leads to.
    pub open spec fn spec_top(&self) -> int {
        top_of(self.base(), self.metadata())
    }

    pub closed spec fn wf(&self) -> bool {
        &&& self.highway@.len() == self.metadata@.len()
        &&& forall|i: int|
            0 <= i < self.highway@.len() ==> (#[trigger] self.highway@[i]).wf()
                && self.metadata@[i] == metadata_of(self.highway@[i].transition())
        &&& well_formed(self.base as int, self.metadata@)
        &&& self.lookup.wf()
        &&& self.lookup.shift() == self.base
        &&& self.lookup.spec_len() == top_of(self.base as int, self.metadata@)
        &&& forall|height: int|
            self.base <= height < self.lookup.spec_len() ==> #[trigger] self.lookup.spec_index(
                height,
            ) == start_index(self.metadata@, height)
    }

    /// A well-formed frame has one metadata entry for each install, its
    /// highway is a well-formed chain, and its top is at or above its base.
    pub proof fn lemma_wf(&self)
        requires
            self.wf(),
        ensures
            self.highway().len() == self.metadata().len(),
            forall|i: int|
                0 <= i < self.highway().len() ==> (#[trigger] self.highway()[i]).wf()
                    && self.metadata()[i] == metadata_of(self.highway()[i].transition()),
            well_formed(self.base(), self.metadata()),
            self.base() <= self.spec_top() <= usize::MAX,
            0 <= self.base(),
    {
        if self.metadata@.len() > 0 {
            assert(self.base < self.metadata@[self.metadata@.len() - 1].destination_height);
        }
    }

    /// The frame of a replica that has seen no install yet.
    pub fn genesis(genesis: &Committee) -> (frame: Frame)
        ensures
            frame.wf(),
            frame.base() == genesis.spec_height(),
            frame.highway() == Seq::<Install>::empty(),
            frame.metadata() == Seq::<Metadata>::empty(),
    {
        Frame {
            base: genesis.height(),
            highway: Vec::new(),
            metadata: Vec::new(),
            lookup: ShiftVec::new(genesis.height()),
        }
    }

    /// Takes `install` if it grows or improves the highway, and hands back
    /// the frame that results; `None` if it does neither.
    pub fn update(&self, install: Install) -> (outcome: Option<Frame>)
        requires
            self.wf(),
            install.wf(),
        ensures
            outcome is Some <==> grows(
                self.base(),
                self.metadata(),
                metadata_of(install.transition()),
            ) || improves(self.metadata(), metadata_of(install.transition())),
            outcome matches Some(frame) ==> {
                &&& frame.wf()
                &&& frame.base() == self.base()
                &&& frame.metadata() == acquire(
                    self.metadata(),
                    metadata_of(install.transition()),
                )
                &&& frame.highway() == splice(
                    self.metadata(),
                    self.highway(),
                    metadata_of(install.transition()),
                    install,
                )
                &&& frame.spec_top() >= self.spec_top()
                &&& rooted(self.base(), self.metadata()) && self.base() <= metadata_of(
                    install.transition(),
                ).source_height ==> rooted(frame.base(), frame.metadata())
            },
    {
        let metadata = Self::measure(install.transition_ref());
        if self.can_grow_by(&metadata) || self.can_improve_by(&metadata) {
            Some(self.acquire(install, metadata))
        } else {
            None
        }
    }

    /// The frame after `install`, whatever the frame makes of it.
    pub open spec fn follows(&self, frame: Frame, install: Install) -> bool {
        &&& frame.wf()
        &&& frame.base() == self.base()
        &&& frame.metadata() == acquire(self.metadata(), metadata_of(install.transition()))
        &&& frame.highway() == splice(
            self.metadata(),
            self.highway(),
            metadata_of(install.transition()),
            install,
        )
    }

    /// Whether the frame takes `install`.
    pub open spec fn takes(&self, install: Install) -> bool {
        grows(self.base(), self.metadata(), metadata_of(install.transition())) || improves(
            self.metadata(),
            metadata_of(install.transition()),
        )
    }

    /// Of two installs that the frame takes, the second is preferred when
    /// it makes the shorter highway, or one as long with a tailless
    /// install where the first is not tailless.
    pub open spec fn prefers_second(&self, first: Install, second: Install) -> bool {
        let one = acquire(self.metadata(), metadata_of(first.transition()));
        let other = acquire(self.metadata(), metadata_of(second.transition()));
        other.len() < one.len() || (other.len() == one.len() && metadata_of(
            second.transition(),
        ).tailless && !metadata_of(first.transition()).tailless)
    }

    /// Updates the frame with the better of two installs: the one that the
    /// frame takes, if it takes but one, and the preferred one if it takes
    /// both.
    pub fn update_either(&self, first: Install, second: Install) -> (outcome: Option<Frame>)
        requires
            self.wf(),
            first.wf(),
            second.wf(),
        ensures
            outcome is Some <==> self.takes(first) || self.takes(second),
            outcome matches Some(frame) ==> if self.takes(first) && (!self.takes(second)
                || !self.prefers_second(first, second)) {
                self.follows(frame, first)
            } else {
                self.follows(frame, second)
            },
    {
        let first_tailless = first.transition_ref().tailless();
        let second_tailless = second.transition_ref().tailless();
        let one = self.update(first);
        let other = self.update(second);
        match (one, other) {
            (Some(one), Some(other)) => {
                if other.len() < one.len() || (other.len() == one.len() && second_tailless
                    && !first_tailless) {
                    Some(other)
                } else {
                    Some(one)
                }
            },
            (Some(one), None) => Some(one),
            (None, other) => other,
        }
    }

    /// The height that the highway leads to; the genesis height while it
    /// is empty.
    pub fn top(&self) -> (top: usize)
        requires
            self.wf(),
        ensures
            top == self.spec_top(),
    {
        if self.metadata.len() == 0 {
            self.base
        } else {
            self.metadata[self.metadata.len() - 1].destination_height
        }
    }

    /// The installs that lead an observer at `height` to the top. A height
    /// below the genesis height counts as the genesis height; at or above
    /// the top there is nothing to install.
    pub fn lookup(&self, height: usize) -> (installs: Vec<Install>)
        requires
            self.wf(),
        ensures
            installs@ == lookup(self.base(), self.metadata(), self.highway(), height as int),
    {
        let height = if height < self.base {
            self.base
        } else {
            height
        };
        let mut installs: Vec<Install> = Vec::new();
        if height < self.top() {
            let start = *self.lookup.get(height);
            proof {
                lemma_start_index(self.metadata@, height as int);
            }
            let mut index: usize = start;
            while index < self.highway.len()
                invariant
                    start <= index <= self.highway@.len(),
                    installs@ == self.highway@.subrange(start as int, index as int),
                decreases self.highway@.len() - index,
            {
                installs.push(self.highway[index].clone());
                index += 1;
            }
            assert(self.highway@.subrange(start as int, index as int) == self.highway@.skip(
                start as int,
            ));
        }
        installs
    }

    /// Index into the highway of the first install that an observer at
    /// `height` is handed; `None` outside the range from the genesis
    /// height up to the top.
    pub fn start(&self, height: usize) -> (start: Option<usize>)
        requires
            self.wf(),
        ensures
            start == if self.base() <= height < self.spec_top() {
                Some(start_index(self.metadata(), height as int) as usize)
            } else {
                None
            },
    {
        if self.base <= height && height < self.top() {
            Some(*self.lookup.get(height))
        } else {
            None
        }
    }

    /// Number of installs on the highway.
    pub fn len(&self) -> (len: usize)
        ensures
            len == self.highway().len(),
            self.wf() ==> len == self.metadata().len(),
    {
        self.highway.len()
    }

    fn measure(transition: &Transition) -> (metadata: Metadata)
        ensures
            metadata == metadata_of(*transition),
            transition.wf() ==> metadata.source_height < metadata.destination_height,
    {
        proof {
            transition.spec_source().lemma_height_fits();
            transition.spec_destination().lemma_height_fits();
        }
        Metadata {
            source_height: transition.source().height(),
            destination_height: transition.destination().height(),
            tailless: transition.tailless(),
        }
    }

    fn acquire(&self, install: Install, transition: Metadata) -> (frame: Frame)
        requires
            self.wf(),
            install.wf(),
            transition == metadata_of(install.transition()),
            grows(self.base(), self.metadata(), transition) || improves(
                self.metadata(),
                transition,
            ),
        ensures
            frame.wf(),
            frame.base() == self.base(),
            frame.metadata() == acquire(self.metadata(), transition),
            frame.highway() == splice(self.metadata(), self.highway(), transition, install),
            frame.spec_top() >= self.spec_top(),
            rooted(self.base(), self.metadata()) && self.base() <= transition.source_height
                ==> rooted(frame.base(), frame.metadata()),
    {
        let base = self.base;
        proof {
            install.transition().spec_source().lemma_height_fits();
            install.transition().spec_destination().lemma_height_fits();
            lemma_acquire(base as int, self.metadata@, transition);
        }
        let (highway, metadata) = self.assemble(install, transition);
        let lookup = Self::tabulate(base, &metadata);
        Frame { base, highway, metadata, lookup }
    }

    /// Splices `install` into the highway and its metadata.
    fn assemble(&self, install: Install, transition: Metadata) -> (spliced: (
        Vec<Install>,
        Vec<Metadata>,
    ))
        requires
            self.wf(),
            install.wf(),
            transition == metadata_of(install.transition()),
        ensures
            spliced.0@ == splice(self.metadata(), self.highway(), transition, install),
            spliced.1@ == acquire(self.metadata(), transition),
            spliced.0@.len() == spliced.1@.len(),
            forall|i: int|
                0 <= i < spliced.0@.len() ==> (#[trigger] spliced.0@[i]).wf() && spliced.1@[i]
                    == metadata_of(spliced.0@[i].transition()),
    {
        let mut highway: Vec<Install> = Vec::new();
        let mut metadata: Vec<Metadata> = Vec::new();
        let ghost mut prefix_len: int = 0;

        if let Some(to) = self.locate_by_destination(transition.source_height) {
            let count = self.metadata.len();
            let mut index: usize = 0;
            while index <= to
                invariant
                    self.wf(),
                    to < count,
                    count == self.metadata@.len(),
                    index <= to + 1,
                    highway@ == self.highway@.take(index as int),
                    metadata@ == self.metadata@.take(index as int),
                decreases to + 1 - index,
            {
                highway.push(self.highway[index].clone());
                metadata.push(self.metadata[index]);
                index += 1;
            }
            proof {
                prefix_len = to + 1;
            }
        }

        highway.push(install);
        metadata.push(transition);

        let ghost head = highway@;
        let ghost head_metadata = metadata@;
        let ghost mut offset: int = 0;
        if let Some(from) = self.locate_by_source(transition.destination_height) {
            let mut index: usize = from;
            while index < self.metadata.len()
                invariant
                    self.wf(),
                    from <= index <= self.metadata@.len(),
                    highway@ == head + self.highway@.subrange(from as int, index as int),
                    metadata@ == head_metadata + self.metadata@.subrange(from as int, index as int),
                decreases self.metadata@.len() - index,
            {
                highway.push(self.highway[index].clone());
                metadata.push(self.metadata[index]);
                index += 1;
            }
            assert(self.highway@.subrange(from as int, index as int) == self.highway@.skip(
                from as int,
            ));
            assert(self.metadata@.subrange(from as int, index as int) == self.metadata@.skip(
                from as int,
            ));
            proof {
                offset = from as int;
            }
        }
        proof {
            assert(metadata@ == acquire(self.metadata@, transition));
            assert(highway@ == splice(self.metadata@, self.highway@, transition, install));
            assert forall|i: int| 0 <= i < highway@.len() implies (#[trigger] highway@[i]).wf()
                && metadata@[i] == metadata_of(highway@[i].transition()) by {
                if i < prefix_len {
                    assert(highway@[i] == self.highway@[i]);
                    assert(metadata@[i] == self.metadata@[i]);
                } else if i > prefix_len {
                    assert(highway@[i] == self.highway@[offset + (i - prefix_len - 1)]);
                    assert(metadata@[i] == self.metadata@[offset + (i - prefix_len - 1)]);
                }
            }
        }
        (highway, metadata)
    }

    /// Builds the lookup table of a highway: for each height from `base`
    /// up to the top, where an observer starts reading.
    fn tabulate(base: usize, metadata: &Vec<Metadata>) -> (lookup: ShiftVec<usize>)
        requires
            well_formed(base as int, metadata@),
            metadata@.len() > 0,
        ensures
            lookup.wf(),
            lookup.shift() == base,
            lookup.spec_len() == top_of(base as int, metadata@),
            forall|height: int|
                base <= height < lookup.spec_len() ==> #[trigger] lookup.spec_index(height)
                    == start_index(metadata@, height),
    {
        let ghost chain = metadata@;
        let ghost top = top_of(base as int, chain);
        proof {
            lemma_chained_ordered(chain);
            assert(base < chain[chain.len() - 1].destination_height);
        }

        let mut lookup: ShiftVec<usize> = ShiftVec::new(base);
        let mut last_tailless: usize = 0;
        let mut index: usize = 0;

        while index < metadata.len()
            invariant
                chain == metadata@,
                well_formed(base as int, chain),
                chain.len() > 0,
                top == top_of(base as int, chain),
                index <= chain.len(),
                lookup.wf(),
                lookup.shift() == base,
                lookup.spec_len() == covered(base as int, chain.take(index as int)),
                last_tailless == start_index(chain.take(index as int), top),
                last_tailless <= index,
                forall|height: int|
                    base <= height < lookup.spec_len() ==> #[trigger] lookup.spec_index(height)
                        == start_index(chain, height),
            decreases chain.len() - index,
        {
            let entry = metadata[index];
            let ghost seen = chain.take(index as int);
            let ghost grown = chain.take(index + 1);
            proof {
                lemma_chained_ordered(chain);
                assert(grown.drop_last() == seen);
                assert(grown.last() == chain[index as int]);
                assert(base < chain[index as int].destination_height);
                lemma_covered(base as int, seen);
                if covered(base as int, seen) != base {
                    let i = choose|i: int|
                        0 <= i < seen.len() && (#[trigger] seen[i]).destination_height == covered(
                            base as int,
                            seen,
                        );
                    assert(seen[i] == chain[i]);
                    assert(chain[i].destination_height <= chain[index as int].source_height);
                    assert(chain[index as int].source_height
                        < chain[index as int].destination_height);
                }
                if index < chain.len() - 1 {
                    assert(chain[index as int].destination_height <= chain[chain.len()
                        - 1].source_height);
                    assert(chain[chain.len() - 1].source_height < chain[chain.len()
                        - 1].destination_height);
                }
                assert(entry.destination_height <= top);
            }
            if entry.tailless {
                while lookup.len() < entry.destination_height
                    invariant
                        chain == metadata@,
                        chained(chain),
                        index < chain.len(),
                        entry == chain[index as int],
                        seen == chain.take(index as int),
                        entry.destination_height <= top,
                        lookup.wf(),
                        lookup.shift() == base,
                        covered(base as int, seen) <= lookup.spec_len() <= entry.destination_height,
                        last_tailless == start_index(seen, top),
                        forall|height: int|
                            base <= height < lookup.spec_len() ==> #[trigger] lookup.spec_index(
                                height,
                            ) == start_index(chain, height),
                    decreases entry.destination_height - lookup.spec_len(),
                {
                    let ghost height = lookup.spec_len() as int;
                    let ghost before = lookup;
                    proof {
                        lemma_start_index_cut(chain, index as int, height);
                        lemma_start_index_stable(base as int, seen, height, top);
                    }
                    lookup.push(last_tailless);
                    assert forall|h: int| base <= h < lookup.spec_len() implies #[trigger] lookup.spec_index(
                        h,
                    ) == start_index(chain, h) by {
                        if h < height {
                            assert(lookup.spec_index(h) == before.spec_index(h));
                        }
                    }
                }
                last_tailless = index + 1;
            }
            index += 1;
        }

        assert(chain.take(index as int) == chain);
        proof {
            lemma_chained_ordered(chain);
            lemma_covered(base as int, chain);
            if covered(base as int, chain) != base {
                let i = choose|i: int|
                    0 <= i < chain.len() && (#[trigger] chain[i]).destination_height == covered(
                        base as int,
                        chain,
                    );
                if i < chain.len() - 1 {
                    assert(chain[i].destination_height <= chain[chain.len() - 1].source_height);
                    assert(chain[chain.len() - 1].source_height < chain[chain.len()
                        - 1].destination_height);
                }
            }
        }

        while lookup.len() < metadata[metadata.len() - 1].destination_height
            invariant
                chain == metadata@,
                chain.len() > 0,
                top == top_of(base as int, chain),
                lookup.wf(),
                lookup.shift() == base,
                covered(base as int, chain) <= lookup.spec_len() <= top,
                last_tailless == start_index(chain, top),
                forall|height: int|
                    base <= height < lookup.spec_len() ==> #[trigger] lookup.spec_index(height)
                        == start_index(chain, height),
            decreases top - lookup.spec_len(),
        {
            let ghost height = lookup.spec_len() as int;
            let ghost before = lookup;
            proof {
                lemma_start_index_stable(base as int, chain, height, top);
            }
            lookup.push(last_tailless);
            assert forall|h: int| base <= h < lookup.spec_len() implies #[trigger] lookup.spec_index(
                h,
            ) == start_index(chain, h) by {
                if h < height {
                    assert(lookup.spec_index(h) == before.spec_index(h));
                }
            }
        }
        lookup
    }

    fn can_grow_by(&self, transition: &Metadata) -> (able: bool)
        requires
            self.wf(),
        ensures
            able == grows(self.base(), self.metadata(), *transition),
    {
        transition.destination_height > self.top()
    }

    fn can_improve_by(&self, transition: &Metadata) -> (able: bool)
        requires
            self.wf(),
        ensures
            able == improves(self.metadata(), *transition),
    {
        match (
            self.locate_by_source(transition.source_height),
            self.locate_by_destination(transition.destination_height),
        ) {
            (Some(source), Some(destination)) => source < destination || (transition.tailless
                && !self.metadata[destination].tailless),
            _ => false,
        }
    }

    fn locate_by_source(&self, height: usize) -> (found: Option<usize>)
        requires
            self.wf(),
        ensures
            match found {
                Some(index) => locate_source(self.metadata(), height as int) == Some(index as int)
                    && index < self.metadata().len(),
                None => locate_source(self.metadata(), height as int) is None,
            },
    {
        proof {
            lemma_chained_ordered(self.metadata@);
            lemma_locate_source(self.metadata@, height as int);
        }
        let mut low: usize = 0;
        let mut high: usize = self.metadata.len();
        while low < high
            invariant
                self.wf(),
                chained(self.metadata@),
                crate::discovery::highway::ordered(self.metadata@),
                low <= high <= self.metadata@.len(),
                forall|i: int| 0 <= i < low ==> (#[trigger] self.metadata@[i]).source_height < height,
                forall|i: int|
                    high <= i < self.metadata@.len() ==> (#[trigger] self.metadata@[i]).source_height
                        > height,
                forall|i: int|
                    0 <= i < self.metadata@.len() && (#[trigger] self.metadata@[i]).source_height
                        == height ==> locate_source(self.metadata@, height as int) == Some(i),
            decreases high - low,
        {
            let mid: usize = low + (high - low) / 2;
            let source = self.metadata[mid].source_height;
            if source == height {
                return Some(mid);
            } else if source < height {
                assert forall|i: int| 0 <= i < mid + 1 implies (#[trigger] self.metadata@[i]).source_height
                    < height by {
                    if i < mid {
                        assert(self.metadata@[i].source_height < self.metadata@[i].destination_height);
                        assert(self.metadata@[i].destination_height <= self.metadata@[mid as int].source_height);
                    }
                }
                low = mid + 1;
            } else {
                assert forall|i: int| mid <= i < self.metadata@.len() implies (
                #[trigger] self.metadata@[i]).source_height > height by {
                    if mid < i {
                        assert(self.metadata@[mid as int].source_height
                            < self.metadata@[mid as int].destination_height);
                        assert(self.metadata@[mid as int].destination_height
                            <= self.metadata@[i].source_height);
                    }
                }
                high = mid;
            }
        }
        None
    }

    fn locate_by_destination(&self, height: usize) -> (found: Option<usize>)
        requires
            self.wf(),
        ensures
            match found {
                Some(index) => locate_destination(self.metadata(), height as int) == Some(
                    index as int,
                ) && index < self.metadata().len(),
                None => locate_destination(self.metadata(), height as int) is None,
            },
    {
        proof {
            lemma_chained_ordered(self.metadata@);
            lemma_locate_destination(self.metadata@, height as int);
        }
        let mut low: usize = 0;
        let mut high: usize = self.metadata.len();
        while low < high
            invariant
                self.wf(),
                chained(self.metadata@),
                crate::discovery::highway::ordered(self.metadata@),
                low <= high <= self.metadata@.len(),
                forall|i: int|
                    0 <= i < low ==> (#[trigger] self.metadata@[i]).destination_height < height,
                forall|i: int|
                    high <= i < self.metadata@.len() ==> (
                    #[trigger] self.metadata@[i]).destination_height > height,
                forall|i: int|
                    0 <= i < self.metadata@.len() && (#[trigger] self.metadata@[i]).destination_height
                        == height ==> locate_destination(self.metadata@, height as int) == Some(i),
            decreases high - low,
        {
            let mid: usize = low + (high - low) / 2;
            let destination = self.metadata[mid].destination_height;
            if destination == height {
                return Some(mid);
            } else if destination < height {
                assert forall|i: int| 0 <= i < mid + 1 implies (
                #[trigger] self.metadata@[i]).destination_height < height by {
                    if i < mid {
                        assert(self.metadata@[i].destination_height <= self.metadata@[mid as int].source_height);
                        assert(self.metadata@[mid as int].source_height
                            < self.metadata@[mid as int].destination_height);
                    }
                }
                low = mid + 1;
            } else {
                assert forall|i: int| mid <= i < self.metadata@.len() implies (
                #[trigger] self.metadata@[i]).destination_height > height by {
                    if mid < i {
                        assert(self.metadata@[mid as int].destination_height
                            <= self.metadata@[i].source_height);
                        assert(self.metadata@[i].source_height < self.metadata@[i].destination_height);
                    }
                }
                high = mid;
            }
        }
        None
    }
}

} // verus!
