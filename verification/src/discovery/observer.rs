use crate::discovery::frame::metadata_of;
use crate::discovery::highway::anchor;
use crate::discovery::highway::lemma_lookup_reaches_top;
use crate::discovery::highway::lemma_start_index;
use crate::discovery::highway::lookup;
use crate::discovery::highway::replay;
use crate::discovery::highway::rooted;
use crate::discovery::highway::start_index;
use crate::discovery::highway::Metadata;
use crate::discovery::highway::Position;
use crate::discovery::Frame;
use crate::view::Committee;
use crate::view::Install;
use vstd::prelude::*;

verus! {

/// What each of `installs` connects.
pub open spec fn metadata_list(installs: Seq<Install>) -> Seq<Metadata> {
    installs.map_values(|install: Install| metadata_of(install.transition()))
}

/// Someone who follows the view changes: it holds its current view and
/// the last tailless view that it has installed.
pub struct Observer {
    current: Committee,
    last_installable: Committee,
}

impl Observer {
    pub closed spec fn spec_current(&self) -> Committee {
        self.current
    }

    pub closed spec fn spec_last_installable(&self) -> Committee {
        self.last_installable
    }

    /// The heights at which the observer stands.
    pub open spec fn position(&self) -> Position {
        Position {
            current: self.spec_current().spec_height() as int,
            last_installable: self.spec_last_installable().spec_height() as int,
        }
    }

    pub fn new(current: Committee, last_installable: Committee) -> (observer: Observer)
        ensures
            observer.spec_current() == current,
            observer.spec_last_installable() == last_installable,
    {
        Observer { current, last_installable }
    }

    pub fn current(&self) -> (current: &Committee)
        ensures
            *current == self.spec_current(),
    {
        &self.current
    }

    pub fn last_installable(&self) -> (last_installable: &Committee)
        ensures
            *last_installable == self.spec_last_installable(),
    {
        &self.last_installable
    }

    /// Goes through `installs` in order. An install that starts at or
    /// after the last tailless view and leads above the current view is
    /// taken: its destination becomes the current view, and the last
    /// tailless view too if the install is tailless. Any other is ignored.
    pub fn update(&mut self, installs: Vec<Install>)
        ensures
            final(self).position() == replay(old(self).position(), metadata_list(installs@)),
    {
        let ghost all = metadata_list(installs@);
        let mut index: usize = 0;
        assert(all.skip(0) == all);
        while index < installs.len()
            invariant
                all == metadata_list(installs@),
                index <= installs@.len(),
                replay(self.position(), all.skip(index as int)) == replay(old(self).position(), all),
            decreases installs@.len() - index,
        {
            let transition = installs[index].transition_ref();
            proof {
                let rest = all.skip(index as int);
                assert(rest.first() == metadata_of(installs@[index as int].transition()));
                assert(rest.drop_first() == all.skip(index + 1));
                transition.spec_source().lemma_height_fits();
                transition.spec_destination().lemma_height_fits();
            }
            if self.last_installable.height() <= transition.source().height()
                && self.current.height() < transition.destination().height() {
                self.current = transition.destination().clone();
                if transition.tailless() {
                    self.last_installable = transition.destination().clone();
                }
            }
            index += 1;
        }
    }
}

/// An observer that stands at or above the base of a rooted frame ends at
/// or above the top by replaying the frame's lookup for its height,
/// provided that, below the top, its last tailless view is no later than
/// the frame's latest tailless point at or below its height.
pub proof fn lemma_observer_catches_up(frame: Frame, observer: Observer)
    requires
        frame.wf(),
        rooted(frame.base(), frame.metadata()),
        frame.base() <= observer.position().current,
        observer.position().current < frame.spec_top()
            ==> observer.position().last_installable <= anchor(
            frame.base(),
            frame.metadata(),
            observer.position().current,
        ),
    ensures
        replay(
            observer.position(),
            metadata_list(
                lookup(
                    frame.base(),
                    frame.metadata(),
                    frame.highway(),
                    observer.position().current,
                ),
            ),
        ).current >= frame.spec_top(),
{
    frame.lemma_wf();
    let current = observer.position().current;
    lemma_lookup_reaches_top(
        frame.base(),
        frame.metadata(),
        current,
        observer.position().last_installable,
    );
    if current < frame.spec_top() {
        lemma_start_index(frame.metadata(), current);
        let start = start_index(frame.metadata(), current) as int;
        assert(metadata_list(frame.highway().skip(start)) =~= frame.metadata().skip(start));
    } else {
        assert(metadata_list(Seq::<Install>::empty()) =~= Seq::<Metadata>::empty());
    }
}

} // verus!
