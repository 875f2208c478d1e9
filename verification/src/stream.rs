//! Streams: sequences of values that arrive over time.

pub mod calls;
pub mod laws;

use crate::poll::Poll;
use std::collections::VecDeque;
use vstd::prelude::*;

verus! {

broadcast use vstd::std_specs::vecdeque::group_vec_dequeue_axioms;

/// The item that a poll gave, as a list of at most one.
pub open spec fn yielded<T>(poll: Poll<Option<T>>) -> Seq<T> {
    match poll {
        Poll::Ready(Some(item)) => seq![item],
        _ => Seq::empty(),
    }
}

/// A sequence of values that arrive over time.
///
/// `gives` says which items came out of the stream on its way from one state to another,
/// and `answers` what the stream may say when it is asked once.
pub trait Stream: Sized {
    /// What the stream gives.
    type Item;

    /// Whether the stream is in order.
    spec fn ok(&self) -> bool;

    /// Whether the stream can go from `before` to `after` with `items` coming out.
    spec fn gives(before: Self, after: Self, items: Seq<Self::Item>) -> bool;

    /// Whether asking the stream can take it from `before` to `after` with that outcome.
    spec fn answers(before: Self, after: Self, poll: Poll<Option<Self::Item>>) -> bool;

    /// Where nothing happens, no items come out.
    proof fn gives_nothing(s: Self)
        ensures
            Self::gives(s, s, Seq::empty()),
    ;

    /// What comes out in two steps comes out in the two taken together.
    proof fn gives_both(
        a: Self,
        b: Self,
        c: Self,
        first: Seq<Self::Item>,
        second: Seq<Self::Item>,
    )
        requires
            Self::gives(a, b, first),
            Self::gives(b, c, second),
        ensures
            Self::gives(a, c, first + second),
    ;

    /// Asks for the next item. There may be one, there may be none for now, or the stream
    /// has ended.
    fn poll_next(&mut self) -> (poll: Poll<Option<Self::Item>>)
        requires
            old(self).ok(),
        ensures
            final(self).ok(),
            Self::gives(*old(self), *final(self), yielded(poll)),
            Self::answers(*old(self), *final(self), poll),
    ;

    /// Bounds on how many items are left.
    fn size_hint(&self) -> (bounds: (usize, Option<usize>))
        ensures
            bounds.1 matches Some(upper) ==> bounds.0 <= upper,
        default_ensures
            bounds == (0usize, None::<usize>),
    {
        (0, None)
    }
}

// ---------------------------------------------------------------------------
// A stream of given items
// ---------------------------------------------------------------------------

/// A stream of given items.
pub struct Iter<T> {
    items: VecDeque<T>,
}

impl<T> Iter<T> {
    /// The items that are left.
    pub closed spec fn left(&self) -> Seq<T> {
        self.items@
    }
}

/// A stream of the items of a list, in order.
pub fn iter<T>(items: VecDeque<T>) -> (stream: Iter<T>)
    ensures
        stream.left() == items@,
{
    Iter { items }
}

impl<T> Stream for Iter<T> {
    type Item = T;

    open spec fn ok(&self) -> bool {
        true
    }

    open spec fn gives(before: Self, after: Self, items: Seq<T>) -> bool {
        before.left() == items + after.left()
    }

    /// There is always an item, until all have come.
    open spec fn answers(before: Self, after: Self, poll: Poll<Option<T>>) -> bool {
        if before.left().len() > 0 {
            &&& poll == Poll::Ready(Some(before.left()[0]))
            &&& after.left() == before.left().skip(1)
        } else {
            &&& poll == Poll::<Option<T>>::Ready(None)
            &&& after.left() == before.left()
        }
    }

    proof fn gives_nothing(s: Self) {
        assert(s.left() =~= Seq::<T>::empty() + s.left());
    }

    proof fn gives_both(a: Self, b: Self, c: Self, first: Seq<T>, second: Seq<T>) {
        assert(first + (second + c.left()) =~= (first + second) + c.left());
    }

    fn poll_next(&mut self) -> (poll: Poll<Option<T>>) {
        let ghost before = self.items@;
        let item = self.items.pop_front();
        proof {
            if before.len() > 0 {
                assert(before =~= seq![before[0]] + self.items@);
            } else {
                assert(before =~= Seq::empty() + self.items@);
            }
        }
        Poll::Ready(item)
    }

    fn size_hint(&self) -> (bounds: (usize, Option<usize>))
        ensures
            bounds.0 == self.left().len(),
            bounds.1 == Some(bounds.0),
    {
        let len: usize = self.items.len();
        (len, Some(len))
    }
}

// ---------------------------------------------------------------------------
// A stream from code that comes without proofs
// ---------------------------------------------------------------------------

/// Gives items in a way that nothing is known of.
pub trait Supply: Sized {
    /// What is given.
    type Item;

    /// Asks for the next item.
    fn supply(&mut self) -> Poll<Option<Self::Item>>;
}

/// A supply, and what it has answered.
pub struct Supplied<S: Supply> {
    supply: S,
    given: Ghost<Seq<S::Item>>,
    answered: Ghost<Seq<Poll<Option<S::Item>>>>,
}

impl<S: Supply> Supplied<S> {
    /// The supply.
    pub closed spec fn source(&self) -> S {
        self.supply
    }

    /// The items that have come so far.
    pub closed spec fn so_far(&self) -> Seq<S::Item> {
        self.given@
    }

    /// What the supply has answered so far.
    pub closed spec fn answered(&self) -> Seq<Poll<Option<S::Item>>> {
        self.answered@
    }

    /// A stream of what a supply gives from now on.
    pub fn new(supply: S) -> (stream: Supplied<S>)
        ensures
            stream.source() == supply,
            stream.so_far() == Seq::<S::Item>::empty(),
            stream.answered() == Seq::<Poll<Option<S::Item>>>::empty(),
    {
        Supplied { supply, given: Ghost(Seq::empty()), answered: Ghost(Seq::empty()) }
    }
}

impl<S: Supply> Stream for Supplied<S> {
    type Item = S::Item;

    open spec fn ok(&self) -> bool {
        true
    }

    open spec fn gives(before: Self, after: Self, items: Seq<S::Item>) -> bool {
        after.so_far() == before.so_far() + items
    }

    /// The supply is asked once.
    open spec fn answers(before: Self, after: Self, poll: Poll<Option<S::Item>>) -> bool {
        after.answered() == before.answered().push(poll)
    }

    proof fn gives_nothing(s: Self) {
        assert(s.so_far() + Seq::<S::Item>::empty() =~= s.so_far());
    }

    proof fn gives_both(a: Self, b: Self, c: Self, first: Seq<S::Item>, second: Seq<S::Item>) {
        assert((a.so_far() + first) + second =~= a.so_far() + (first + second));
    }

    fn poll_next(&mut self) -> (poll: Poll<Option<S::Item>>)
        ensures
            exists|s: &mut S|
                {
                    &&& *s == old(self).source()
                    &&& *final(s) == final(self).source()
                    &&& #[trigger] call_ensures(S::supply, (s,), poll)
                },
    {
        let poll = self.supply.supply();
        proof {
            self.given@ = self.given@ + yielded(poll);
            self.answered@ = self.answered@.push(poll);
        }
        poll
    }
}

// ---------------------------------------------------------------------------
// Other streams made from a stream
// ---------------------------------------------------------------------------

/// What one step of a stream or future made from a stream brings.
#[derive(Debug, Clone, Copy, PartialEq, Eq)]
pub enum Step<T> {
    /// An item was taken, and there is more to do.
    Progress,
    /// There is nothing for now.
    Pending,
    /// This is the result.
    Ready(T),
}

/// Whether a function can be called with every item.
pub open spec fn callable<T, B, F: Fn(T) -> B>(f: F) -> bool {
    forall|item: T| #[trigger] f.requires((item,))
}

/// Whether a function can be asked about every item.
pub open spec fn askable<T, F: Fn(&T) -> bool>(f: F) -> bool {
    forall|item: &T| #[trigger] f.requires((item,))
}

/// Whether a function can put every item to every whole.
pub open spec fn puttable<B, T, F: Fn(B, T) -> B>(f: F) -> bool {
    forall|acc: B, item: T| #[trigger] f.requires((acc, item))
}

/// Every item changed by a function.
pub struct Mapped<St, F> {
    stream: St,
    f: F,
}

impl<St, F> Mapped<St, F> {
    /// The stream underneath.
    pub closed spec fn source(&self) -> St {
        self.stream
    }

    /// The function.
    pub closed spec fn function(&self) -> F {
        self.f
    }
}

impl<St: Stream, B, F: Fn(St::Item) -> B> Mapped<St, F> {
    /// Whether the items that came out are those that went in, changed.
    pub open spec fn changed(
        before: Self,
        after: Self,
        items: Seq<B>,
        taken: Seq<St::Item>,
    ) -> bool {
        &&& St::gives(before.source(), after.source(), taken)
        &&& before.function() == after.function()
        &&& items.len() == taken.len()
        &&& forall|i: int|
            0 <= i < items.len() ==> before.function().ensures((taken[i],), #[trigger] items[i])
    }
}

impl<St: Stream, B, F: Fn(St::Item) -> B> Stream for Mapped<St, F> {
    type Item = B;

    open spec fn ok(&self) -> bool {
        &&& self.source().ok()
        &&& callable::<St::Item, B, F>(self.function())
    }

    open spec fn gives(before: Self, after: Self, items: Seq<B>) -> bool {
        exists|taken: Seq<St::Item>| #[trigger] Self::changed(before, after, items, taken)
    }

    /// The stream underneath is asked once, and its item is changed.
    open spec fn answers(before: Self, after: Self, poll: Poll<Option<B>>) -> bool {
        exists|inner: Poll<Option<St::Item>>|
            {
                &&& #[trigger] St::answers(before.source(), after.source(), inner)
                &&& before.function() == after.function()
                &&& match inner {
                    Poll::Pending => poll is Pending,
                    Poll::Ready(None) => poll == Poll::<Option<B>>::Ready(None),
                    Poll::Ready(Some(item)) => poll matches Poll::Ready(Some(changed))
                        && before.function().ensures((item,), changed),
                }
            }
    }

    proof fn gives_nothing(s: Self) {
        St::gives_nothing(s.source());
        assert(Self::changed(s, s, Seq::empty(), Seq::empty()));
    }

    proof fn gives_both(a: Self, b: Self, c: Self, first: Seq<B>, second: Seq<B>) {
        let t1 = choose|taken: Seq<St::Item>| #[trigger] Self::changed(a, b, first, taken);
        let t2 = choose|taken: Seq<St::Item>| #[trigger] Self::changed(b, c, second, taken);
        St::gives_both(a.source(), b.source(), c.source(), t1, t2);
        let both = first + second;
        let taken = t1 + t2;
        assert forall|i: int| 0 <= i < both.len() implies a.function().ensures(
            (taken[i],),
            #[trigger] both[i],
        ) by {
            if i < first.len() {
                assert(both[i] == first[i] && taken[i] == t1[i]);
            } else {
                assert(both[i] == second[i - first.len()] && taken[i] == t2[i - first.len()]);
            }
        }
        assert(Self::changed(a, c, both, taken));
    }

    fn poll_next(&mut self) -> (poll: Poll<Option<B>>) {
        let ghost before = *self;
        let poll = self.stream.poll_next();
        assert(St::answers(before.source(), self.source(), poll));
        match poll {
            Poll::Ready(Some(item)) => {
                let ghost taken = yielded(poll);
                let changed = (self.f)(item);
                proof {
                    assert(Self::changed(before, *self, seq![changed], taken));
                }
                Poll::Ready(Some(changed))
            },
            Poll::Ready(None) => {
                assert(Self::changed(before, *self, Seq::empty(), Seq::empty()));
                Poll::Ready(None)
            },
            Poll::Pending => {
                assert(Self::changed(before, *self, Seq::empty(), Seq::empty()));
                Poll::Pending
            },
        }
    }
}

/// The items for which a function says yes.
pub struct Filter<St, F> {
    stream: St,
    f: F,
}

impl<St, F> Filter<St, F> {
    /// The stream underneath.
    pub closed spec fn source(&self) -> St {
        self.stream
    }

    /// The function.
    pub closed spec fn function(&self) -> F {
        self.f
    }
}

impl<St: Stream, F: Fn(&St::Item) -> bool> Filter<St, F> {
    /// Whether that becomes of what the stream underneath gave.
    pub open spec fn decided(
        f: F,
        poll: Poll<Option<St::Item>>,
        step: Step<Option<St::Item>>,
    ) -> bool {
        match poll {
            Poll::Pending => step is Pending,
            Poll::Ready(None) => step == Step::Ready(None::<St::Item>),
            Poll::Ready(Some(item)) => {
                ||| step == Step::Ready(Some(item)) && f.ensures((&item,), true)
                ||| step is Progress && f.ensures((&item,), false)
            },
        }
    }

    /// What becomes of what the stream underneath gave: an item for which the function
    /// says no is skipped.
    pub fn decide(&self, poll: Poll<Option<St::Item>>) -> (step: Step<Option<St::Item>>)
        requires
            askable::<St::Item, F>(self.function()),
        ensures
            Self::decided(self.function(), poll, step),
    {
        match poll {
            Poll::Pending => Step::Pending,
            Poll::Ready(None) => Step::Ready(None),
            Poll::Ready(Some(item)) => {
                if (self.f)(&item) {
                    Step::Ready(Some(item))
                } else {
                    Step::Progress
                }
            },
        }
    }

    /// Takes one item.
    pub fn step(&mut self) -> (step: Step<Option<St::Item>>)
        requires
            old(self).source().ok(),
            askable::<St::Item, F>(old(self).function()),
        ensures
            final(self).source().ok(),
            final(self).function() == old(self).function(),
            exists|poll: Poll<Option<St::Item>>|
                {
                    &&& #[trigger] St::answers(old(self).source(), final(self).source(), poll)
                    &&& St::gives(old(self).source(), final(self).source(), yielded(poll))
                    &&& Self::decided(old(self).function(), poll, step)
                },
    {
        let ghost before = *self;
        let poll = self.stream.poll_next();
        assert(St::answers(before.source(), self.source(), poll));
        self.decide(poll)
    }
}

/// A stream that has ended once and for all when it ends.
pub struct Fuse<St> {
    stream: St,
    done: bool,
}

impl<St> Fuse<St> {
    /// The stream underneath.
    pub closed spec fn source(&self) -> St {
        self.stream
    }

    /// Whether the stream has ended.
    pub closed spec fn ended(&self) -> bool {
        self.done
    }
}

impl<St: Stream> Stream for Fuse<St> {
    type Item = St::Item;

    open spec fn ok(&self) -> bool {
        self.source().ok()
    }

    open spec fn gives(before: Self, after: Self, items: Seq<St::Item>) -> bool {
        St::gives(before.source(), after.source(), items)
    }

    /// Once the stream has ended, it is not asked again.
    open spec fn answers(before: Self, after: Self, poll: Poll<Option<St::Item>>) -> bool {
        if before.ended() {
            &&& poll == Poll::<Option<St::Item>>::Ready(None)
            &&& after == before
        } else {
            &&& St::answers(before.source(), after.source(), poll)
            &&& after.ended() == (poll == Poll::<Option<St::Item>>::Ready(None))
        }
    }

    proof fn gives_nothing(s: Self) {
        St::gives_nothing(s.source());
    }

    proof fn gives_both(
        a: Self,
        b: Self,
        c: Self,
        first: Seq<St::Item>,
        second: Seq<St::Item>,
    ) {
        St::gives_both(a.source(), b.source(), c.source(), first, second);
    }

    fn poll_next(&mut self) -> (poll: Poll<Option<St::Item>>) {
        proof {
            St::gives_nothing(self.stream);
        }
        if self.done {
            return Poll::Ready(None);
        }
        let poll = self.stream.poll_next();
        match poll {
            Poll::Ready(None) => {
                self.done = true;
                Poll::Ready(None)
            },
            other => other,
        }
    }
}

// ---------------------------------------------------------------------------
// Futures made from a stream
// ---------------------------------------------------------------------------

/// All items put together by a function.
pub struct Fold<St, B, F> {
    stream: St,
    acc: Option<B>,
    f: F,
}

impl<St, B, F> Fold<St, B, F> {
    /// The stream underneath.
    pub closed spec fn source(&self) -> St {
        self.stream
    }

    /// What has been put together, until it is handed out.
    pub closed spec fn so_far(&self) -> Option<B> {
        self.acc
    }

    /// The function.
    pub closed spec fn function(&self) -> F {
        self.f
    }
}

impl<St: Stream, B, F: Fn(B, St::Item) -> B> Fold<St, B, F> {
    /// Whether that becomes of what the stream underneath gave.
    pub open spec fn put_together(
        f: F,
        before: Option<B>,
        after: Option<B>,
        poll: Poll<Option<St::Item>>,
        step: Step<B>,
    ) -> bool {
        match poll {
            Poll::Pending => step is Pending && after == before,
            Poll::Ready(None) => step == Step::Ready(before->Some_0) && after is None,
            Poll::Ready(Some(item)) => {
                &&& step is Progress
                &&& after is Some
                &&& f.ensures((before->Some_0, item), after->Some_0)
            },
        }
    }

    /// What becomes of what the stream underneath gave: an item is put to the others, and
    /// at the end the whole is handed out.
    pub fn put(&mut self, poll: Poll<Option<St::Item>>) -> (step: Step<B>)
        requires
            old(self).so_far() is Some,
            puttable::<B, St::Item, F>(old(self).function()),
        ensures
            final(self).source() == old(self).source(),
            final(self).function() == old(self).function(),
            Self::put_together(
                old(self).function(),
                old(self).so_far(),
                final(self).so_far(),
                poll,
                step,
            ),
    {
        match poll {
            Poll::Pending => Step::Pending,
            Poll::Ready(None) => Step::Ready(self.acc.take().unwrap()),
            Poll::Ready(Some(item)) => {
                let acc = self.acc.take().unwrap();
                let acc = (self.f)(acc, item);
                self.acc = Some(acc);
                Step::Progress
            },
        }
    }

    /// Takes one item.
    pub fn step(&mut self) -> (step: Step<B>)
        requires
            old(self).source().ok(),
            old(self).so_far() is Some,
            puttable::<B, St::Item, F>(old(self).function()),
        ensures
            final(self).source().ok(),
            final(self).function() == old(self).function(),
            exists|poll: Poll<Option<St::Item>>|
                {
                    &&& #[trigger] St::answers(old(self).source(), final(self).source(), poll)
                    &&& St::gives(old(self).source(), final(self).source(), yielded(poll))
                    &&& Self::put_together(
                        old(self).function(),
                        old(self).so_far(),
                        final(self).so_far(),
                        poll,
                        step,
                    )
                },
    {
        let ghost before = *self;
        let poll = self.stream.poll_next();
        assert(St::answers(before.source(), self.source(), poll));
        self.put(poll)
    }
}

/// Something done with every item.
pub struct ForEach<St, F> {
    stream: St,
    f: F,
}

impl<St, F> ForEach<St, F> {
    /// The stream underneath.
    pub closed spec fn source(&self) -> St {
        self.stream
    }

    /// The function.
    pub closed spec fn function(&self) -> F {
        self.f
    }
}

impl<St: Stream, F: Fn(St::Item)> ForEach<St, F> {
    /// Takes one item. This is done when the stream has ended.
    pub fn step(&mut self) -> (step: Step<()>)
        requires
            old(self).source().ok(),
            callable::<St::Item, (), F>(old(self).function()),
        ensures
            final(self).source().ok(),
            final(self).function() == old(self).function(),
            exists|poll: Poll<Option<St::Item>>|
                {
                    &&& #[trigger] St::answers(old(self).source(), final(self).source(), poll)
                    &&& St::gives(old(self).source(), final(self).source(), yielded(poll))
                    &&& match poll {
                        Poll::Pending => step is Pending,
                        Poll::Ready(None) => step is Ready,
                        Poll::Ready(Some(item)) => step is Progress
                            && old(self).function().ensures((item,), ()),
                    }
                },
    {
        let ghost before = *self;
        let poll = self.stream.poll_next();
        assert(St::answers(before.source(), self.source(), poll));
        match poll {
            Poll::Pending => Step::Pending,
            Poll::Ready(None) => Step::Ready(()),
            Poll::Ready(Some(item)) => {
                let unit = (self.f)(item);
                assert(unit == ());
                Step::Progress
            },
        }
    }
}

/// How many items there are.
pub struct Count<St> {
    stream: St,
    count: usize,
}

impl<St> Count<St> {
    /// The stream underneath.
    pub closed spec fn source(&self) -> St {
        self.stream
    }

    /// How many items have come.
    pub closed spec fn so_far(&self) -> nat {
        self.count as nat
    }
}

impl<St: Stream> Count<St> {
    /// What becomes of what the stream underneath gave, behind so many items.
    pub open spec fn counted(so_far: nat, poll: Poll<Option<St::Item>>) -> Step<usize> {
        match poll {
            Poll::Pending => Step::Pending,
            Poll::Ready(None) => Step::Ready(so_far as usize),
            Poll::Ready(Some(_)) => Step::Progress,
        }
    }

    /// What becomes of what the stream underneath gave.
    pub fn put(&mut self, poll: Poll<Option<St::Item>>) -> (step: Step<usize>)
        requires
            old(self).so_far() < usize::MAX,
        ensures
            final(self).source() == old(self).source(),
            final(self).so_far() == old(self).so_far() + yielded(poll).len(),
            step == Self::counted(old(self).so_far(), poll),
    {
        match poll {
            Poll::Pending => Step::Pending,
            Poll::Ready(None) => Step::Ready(self.count),
            Poll::Ready(Some(_)) => {
                self.count = self.count + 1;
                Step::Progress
            },
        }
    }

    /// Takes one item.
    pub fn step(&mut self) -> (step: Step<usize>)
        requires
            old(self).source().ok(),
            old(self).so_far() < usize::MAX,
        ensures
            final(self).source().ok(),
            exists|poll: Poll<Option<St::Item>>|
                {
                    &&& #[trigger] St::answers(old(self).source(), final(self).source(), poll)
                    &&& St::gives(old(self).source(), final(self).source(), yielded(poll))
                    &&& final(self).so_far() == old(self).so_far() + yielded(poll).len()
                    &&& step == Self::counted(old(self).so_far(), poll)
                },
    {
        let ghost before = *self;
        let poll = self.stream.poll_next();
        assert(St::answers(before.source(), self.source(), poll));
        self.put(poll)
    }
}

/// Collections that a stream can be collected into. What adding an item means is the
/// collection's own affair.
pub trait FromStream<T>: Sized {
    /// Whether adding an item can take the collection from `before` to `after`.
    spec fn extends(before: Self, after: Self, item: T) -> bool;

    /// Whether the end of the stream can take the collection from `before` to `after`.
    spec fn finishes(before: Self, after: Self) -> bool;

    /// Adds an item.
    fn extend_with(&mut self, item: T)
        ensures
            Self::extends(*old(self), *final(self), item),
    ;

    /// The stream has ended.
    fn finish(&mut self)
        ensures
            Self::finishes(*old(self), *final(self)),
    ;
}

/// Items go behind the others; the end changes nothing.
impl<T> FromStream<T> for Vec<T> {
    open spec fn extends(before: Self, after: Self, item: T) -> bool {
        after@ == before@.push(item)
    }

    open spec fn finishes(before: Self, after: Self) -> bool {
        after@ == before@
    }

    fn extend_with(&mut self, item: T) {
        self.push(item);
    }

    fn finish(&mut self) {
    }
}

/// All items in a collection.
pub struct Collect<St, B> {
    stream: St,
    buf: Option<B>,
}

impl<St, B> Collect<St, B> {
    /// The stream underneath.
    pub closed spec fn source(&self) -> St {
        self.stream
    }

    /// The collection, until it is handed out.
    pub closed spec fn so_far(&self) -> Option<B> {
        self.buf
    }
}

/// Whether that becomes of what a stream gave that is being collected.
pub open spec fn gathered<T, B: FromStream<T>>(
    before: Option<B>,
    after: Option<B>,
    poll: Poll<Option<T>>,
    step: Step<B>,
) -> bool {
    match poll {
        Poll::Pending => step is Pending && after == before,
        Poll::Ready(None) => {
            &&& step matches Step::Ready(whole)
            &&& B::finishes(before->Some_0, whole)
            &&& after is None
        },
        Poll::Ready(Some(item)) => {
            &&& step is Progress
            &&& after matches Some(more)
            &&& B::extends(before->Some_0, more, item)
        },
    }
}

impl<St: Stream, B: FromStream<St::Item>> Collect<St, B> {
    /// What becomes of what the stream underneath gave.
    pub fn put(&mut self, poll: Poll<Option<St::Item>>) -> (step: Step<B>)
        requires
            old(self).so_far() is Some,
        ensures
            final(self).source() == old(self).source(),
            gathered(old(self).so_far(), final(self).so_far(), poll, step),
    {
        match poll {
            Poll::Pending => Step::Pending,
            Poll::Ready(None) => {
                let mut buf = self.buf.take().unwrap();
                buf.finish();
                Step::Ready(buf)
            },
            Poll::Ready(Some(item)) => {
                let mut buf = self.buf.take().unwrap();
                buf.extend_with(item);
                self.buf = Some(buf);
                Step::Progress
            },
        }
    }

    /// Takes one item.
    pub fn step(&mut self) -> (step: Step<B>)
        requires
            old(self).source().ok(),
            old(self).so_far() is Some,
        ensures
            final(self).source().ok(),
            exists|poll: Poll<Option<St::Item>>|
                {
                    &&& #[trigger] St::answers(old(self).source(), final(self).source(), poll)
                    &&& St::gives(old(self).source(), final(self).source(), yielded(poll))
                    &&& gathered(old(self).so_far(), final(self).so_far(), poll, step)
                },
    {
        let ghost before = *self;
        let poll = self.stream.poll_next();
        assert(St::answers(before.source(), self.source(), poll));
        self.put(poll)
    }
}

/// All items that came in several answers, in order.
pub open spec fn all_yielded<T>(polls: Seq<Poll<Option<T>>>) -> Seq<T>
    decreases polls.len(),
{
    if polls.len() == 0 {
        Seq::empty()
    } else {
        all_yielded(polls.drop_last()) + yielded(polls.last())
    }
}

/// Whether those are the states that a collection goes through while items are added to
/// it, one after another.
pub open spec fn built<T, B: FromStream<T>>(first: B, items: Seq<T>, states: Seq<B>) -> bool {
    &&& states.len() == items.len() + 1
    &&& states[0] == first
    &&& forall|i: int|
        0 <= i < items.len() ==> B::extends(states[i], states[i + 1], #[trigger] items[i])
}

/// Whether those are the steps of a stream that is collected until it ends.
pub open spec fn collected<T, B: FromStream<T>>(
    so_far: Seq<Option<B>>,
    polls: Seq<Poll<Option<T>>>,
    steps: Seq<Step<B>>,
) -> bool {
    &&& polls.len() > 0
    &&& so_far.len() == polls.len() + 1
    &&& steps.len() == polls.len()
    &&& so_far[0] is Some
    &&& forall|i: int|
        0 <= i < polls.len() ==> #[trigger] gathered(so_far[i], so_far[i + 1], polls[i], steps[i])
    &&& forall|i: int| 0 <= i < polls.len() - 1 ==> !((#[trigger] steps[i]) is Ready)
    &&& polls.last() == Poll::<Option<T>>::Ready(None)
}

/// Collecting adds every item, once and in the order in which they came: where a stream
/// is collected step by step until it ends, what is handed out is the collection that was
/// there at first, to which the items of all answers were added, finished.
pub proof fn law_collecting_adds_every_item<T, B: FromStream<T>>(
    so_far: Seq<Option<B>>,
    polls: Seq<Poll<Option<T>>>,
    steps: Seq<Step<B>>,
) -> (states: Seq<B>)
    requires
        collected(so_far, polls, steps),
    ensures
        built(so_far[0]->Some_0, all_yielded(polls), states),
        steps.last() matches Step::Ready(whole) && B::finishes(states.last(), whole),
{
    let n = polls.len() - 1;
    let states = lemma_gathered_so_far(so_far, polls, steps, n);
    assert(gathered(so_far[n], so_far[n + 1], polls[n], steps[n]));
    assert(polls.drop_last() =~= polls.take(n));
    assert(all_yielded(polls) =~= all_yielded(polls.take(n)));
    states
}

/// What is collected into a `Vec` holds the items of all answers, in order, behind what it
/// held at first.
pub proof fn law_a_vec_keeps_every_item<T>(
    so_far: Seq<Option<Vec<T>>>,
    polls: Seq<Poll<Option<T>>>,
    steps: Seq<Step<Vec<T>>>,
)
    requires
        collected(so_far, polls, steps),
    ensures
        steps.last() matches Step::Ready(whole) && whole@ == so_far[0]->Some_0@
            + all_yielded(polls),
{
    let states = law_collecting_adds_every_item(so_far, polls, steps);
    let items = all_yielded(polls);
    lemma_vec_built(so_far[0]->Some_0, items, states, items.len() as int);
    assert(items.take(items.len() as int) =~= items);
}

/// What a `Vec` holds once some items were added.
proof fn lemma_vec_built<T>(first: Vec<T>, items: Seq<T>, states: Seq<Vec<T>>, n: int)
    requires
        built(first, items, states),
        0 <= n <= items.len(),
    ensures
        states[n]@ == first@ + items.take(n),
    decreases n,
{
    if n == 0 {
        assert(first@ + items.take(0) =~= first@);
    } else {
        lemma_vec_built(first, items, states, n - 1);
        let item = items[n - 1];
        assert(Vec::<T>::extends(states[n - 1], states[n - 1 + 1], item));
        assert((first@ + items.take(n - 1)).push(item) =~= first@ + items.take(n));
    }
}

/// What has been collected before the end.
proof fn lemma_gathered_so_far<T, B: FromStream<T>>(
    so_far: Seq<Option<B>>,
    polls: Seq<Poll<Option<T>>>,
    steps: Seq<Step<B>>,
    n: int,
) -> (states: Seq<B>)
    requires
        collected(so_far, polls, steps),
        0 <= n < polls.len(),
    ensures
        built(so_far[0]->Some_0, all_yielded(polls.take(n)), states),
        so_far[n] == Some(states.last()),
    decreases n,
{
    if n == 0 {
        assert(polls.take(0) =~= Seq::empty());
        seq![so_far[0]->Some_0]
    } else {
        let before = lemma_gathered_so_far(so_far, polls, steps, n - 1);
        assert(gathered(so_far[n - 1], so_far[n - 1 + 1], polls[n - 1], steps[n - 1]));
        assert(!(steps[n - 1] is Ready));
        let front = polls.take(n - 1);
        assert(polls.take(n).drop_last() =~= front);
        assert(polls.take(n).last() == polls[n - 1]);
        match polls[n - 1] {
            Poll::Ready(Some(item)) => {
                assert(all_yielded(polls.take(n)) =~= all_yielded(front).push(item));
                before.push(so_far[n]->Some_0)
            },
            _ => {
                assert(all_yielded(polls.take(n)) =~= all_yielded(front));
                before
            },
        }
    }
}

// ---------------------------------------------------------------------------
// Making them
// ---------------------------------------------------------------------------

/// What can be made from any stream.
pub trait StreamExt: Stream {
    /// The next item, where there is one now.
    fn next(&mut self) -> (poll: Poll<Option<Self::Item>>)
        requires
            old(self).ok(),
        ensures
            final(self).ok(),
            Self::gives(*old(self), *final(self), yielded(poll)),
            Self::answers(*old(self), *final(self), poll),
    {
        self.poll_next()
    }

    /// Every item changed by `f`.
    fn map<B, F: Fn(Self::Item) -> B>(self, f: F) -> (map: Mapped<Self, F>)
        ensures
            map.source() == self,
            map.function() == f,
    {
        Mapped { stream: self, f }
    }

    /// The items for which `f` says yes.
    fn filter<F: Fn(&Self::Item) -> bool>(self, f: F) -> (filter: Filter<Self, F>)
        ensures
            filter.source() == self,
            filter.function() == f,
    {
        Filter { stream: self, f }
    }

    /// The stream, which ends once and for all.
    fn fuse(self) -> (fuse: Fuse<Self>)
        ensures
            fuse.source() == self,
            !fuse.ended(),
    {
        Fuse { stream: self, done: false }
    }

    /// All items put together by `f`, beginning with `init`.
    fn fold<B, F: Fn(B, Self::Item) -> B>(self, init: B, f: F) -> (fold: Fold<Self, B, F>)
        ensures
            fold.source() == self,
            fold.so_far() == Some(init),
            fold.function() == f,
    {
        Fold { stream: self, acc: Some(init), f }
    }

    /// Does `f` with every item.
    fn for_each<F: Fn(Self::Item)>(self, f: F) -> (each: ForEach<Self, F>)
        ensures
            each.source() == self,
            each.function() == f,
    {
        ForEach { stream: self, f }
    }

    /// How many items there are.
    fn count(self) -> (count: Count<Self>)
        ensures
            count.source() == self,
            count.so_far() == 0,
    {
        Count { stream: self, count: 0 }
    }

    /// All items in a collection, which is empty now.
    fn collect<B: FromStream<Self::Item>>(self, buf: B) -> (collect: Collect<Self, B>)
        ensures
            collect.source() == self,
            collect.so_far() == Some(buf),
    {
        Collect { stream: self, buf: Some(buf) }
    }
}

impl<S: Stream> StreamExt for S {

}

} // verus!
