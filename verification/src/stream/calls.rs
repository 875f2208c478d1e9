//! What calls on streams made from streams do.

use super::{
    iter, Collect, Count, Filter, Fold, ForEach, FromStream, Fuse, Iter, Step, Stream,
    StreamExt, Supplied, Supply,
};
use crate::poll::Poll;
use std::collections::VecDeque;
use vstd::prelude::*;

verus! {

/// What is made from a stream begins with that stream and with nothing done.
pub proof fn law_streams_begin_with_what_they_are_made_from<St: StreamExt, T>()
    ensures
        forall|st: St, made: Fuse<St>| #[trigger]
            call_ensures(<St as StreamExt>::fuse, (st,), made) ==> made.source() == st
                && !made.ended(),
        forall|st: St, made: Count<St>| #[trigger]
            call_ensures(<St as StreamExt>::count, (st,), made) ==> made.source() == st
                && made.so_far() == 0,
        forall|items: VecDeque<T>, made: Iter<T>| #[trigger]
            call_ensures(iter::<T>, (items,), made) ==> made.left() == items@,
{
}

/// A filter hands on what the stream underneath has just given, where the function says yes
/// to it, and passes it over where it says no.
pub proof fn law_filters_ask_the_stream_once<St: Stream, F: Fn(&St::Item) -> bool>()
    ensures
        forall|filter: &mut Filter<St, F>, step: Step<Option<St::Item>>| #[trigger]
            call_ensures(Filter::<St, F>::step, (filter,), step) ==> {
                let (from, to) = ((*filter).source(), (*final(filter)).source());
                let f = (*filter).function();
                let item = step->Ready_0->0;
                &&& step is Pending ==> St::answers(from, to, Poll::Pending)
                &&& step is Ready && step->Ready_0 is None ==> St::answers(
                    from,
                    to,
                    Poll::Ready(None),
                )
                &&& step is Ready && step->Ready_0 is Some ==> St::answers(
                    from,
                    to,
                    Poll::Ready(Some(item)),
                ) && f.ensures((&item,), true)
                &&& step is Progress ==> exists|skipped: St::Item|
                    #[trigger] St::answers(from, to, Poll::Ready(Some(skipped))) && f.ensures(
                        (&skipped,),
                        false,
                    )
                &&& (*final(filter)).function() == f
            },
{
    assert forall|filter: &mut Filter<St, F>, step: Step<Option<St::Item>>| #[trigger]
        call_ensures(Filter::<St, F>::step, (filter,), step) implies {
        let (from, to) = ((*filter).source(), (*final(filter)).source());
        let f = (*filter).function();
        let item = step->Ready_0->0;
        &&& step is Pending ==> St::answers(from, to, Poll::Pending)
        &&& step is Ready && step->Ready_0 is None ==> St::answers(from, to, Poll::Ready(None))
        &&& step is Ready && step->Ready_0 is Some ==> St::answers(
            from,
            to,
            Poll::Ready(Some(item)),
        ) && f.ensures((&item,), true)
        &&& step is Progress ==> exists|skipped: St::Item|
            #[trigger] St::answers(from, to, Poll::Ready(Some(skipped))) && f.ensures(
                (&skipped,),
                false,
            )
        &&& (*final(filter)).function() == f
    } by {
        let (from, to) = ((*filter).source(), (*final(filter)).source());
        let poll = choose|poll: Poll<Option<St::Item>>|
            {
                &&& #[trigger] St::answers(from, to, poll)
                &&& St::gives(from, to, super::yielded(poll))
                &&& Filter::<St, F>::decided((*filter).function(), poll, step)
            };
        if step is Progress {
            let skipped = poll->Ready_0->0;
            assert(St::answers(from, to, Poll::Ready(Some(skipped))));
        }
    }
}

/// A fold puts the item that the stream underneath has just given to what it has, and hands
/// that out where the stream has ended.
pub proof fn law_folds_take_one_item_at_a_time<St: Stream, B, F: Fn(B, St::Item) -> B>()
    ensures
        forall|fold: &mut Fold<St, B, F>, step: Step<B>| #[trigger]
            call_ensures(Fold::<St, B, F>::step, (fold,), step) && (*fold).so_far() is Some ==> {
                let (from, to) = ((*fold).source(), (*final(fold)).source());
                let has = (*fold).so_far()->0;
                &&& step is Pending ==> St::answers(from, to, Poll::Pending)
                    && (*final(fold)).so_far() == (*fold).so_far()
                &&& step is Ready ==> St::answers(from, to, Poll::Ready(None)) && step->Ready_0
                    == has
                &&& (*final(fold)).function() == (*fold).function()
            },
        forall|fold: &mut Fold<St, B, F>, step: Step<B>| #[trigger]
            call_ensures(Fold::<St, B, F>::step, (fold,), step) && (*fold).so_far() is Some
                && step is Progress ==> exists|item: St::Item|
                #[trigger] St::answers(
                    (*fold).source(),
                    (*final(fold)).source(),
                    Poll::Ready(Some(item)),
                ) && (*final(fold)).so_far() is Some && (*fold).function().ensures(
                    ((*fold).so_far()->0, item),
                    (*final(fold)).so_far()->0,
                ),
{
    assert forall|fold: &mut Fold<St, B, F>, step: Step<B>| #[trigger]
        call_ensures(Fold::<St, B, F>::step, (fold,), step) && (*fold).so_far() is Some
            && step is Progress implies exists|item: St::Item|
        #[trigger] St::answers(
            (*fold).source(),
            (*final(fold)).source(),
            Poll::Ready(Some(item)),
        ) && (*final(fold)).so_far() is Some && (*fold).function().ensures(
            ((*fold).so_far()->0, item),
            (*final(fold)).so_far()->0,
        ) by {
        let (from, to) = ((*fold).source(), (*final(fold)).source());
        let poll = choose|poll: Poll<Option<St::Item>>|
            {
                &&& #[trigger] St::answers(from, to, poll)
                &&& St::gives(from, to, super::yielded(poll))
                &&& Fold::<St, B, F>::put_together(
                    (*fold).function(),
                    (*fold).so_far(),
                    (*final(fold)).so_far(),
                    poll,
                    step,
                )
            };
        let item = poll->Ready_0->0;
        assert(St::answers(from, to, Poll::Ready(Some(item))));
    }
}

/// A count goes up by one for each item, and comes out where the stream has ended.
pub proof fn law_counts_go_up_by_one<St: Stream>()
    ensures
        forall|count: &mut Count<St>, step: Step<usize>| #[trigger]
            call_ensures(Count::<St>::step, (count,), step) && (*count).so_far() < usize::MAX
                ==> {
                &&& step is Progress ==> (*final(count)).so_far() == (*count).so_far() + 1
                &&& !(step is Progress) ==> (*final(count)).so_far() == (*count).so_far()
                &&& step is Ready ==> step->Ready_0 == (*count).so_far() && St::answers(
                    (*count).source(),
                    (*final(count)).source(),
                    Poll::Ready(None),
                )
                &&& step is Pending ==> St::answers(
                    (*count).source(),
                    (*final(count)).source(),
                    Poll::Pending,
                )
            },
        forall|count: &mut Count<St>, poll: Poll<Option<St::Item>>, step: Step<usize>| #[trigger]
            call_ensures(Count::<St>::put, (count, poll), step) && (*count).so_far() < usize::MAX
                ==> {
                &&& step is Progress <==> poll is Ready && poll->Ready_0 is Some
                &&& step is Progress ==> (*final(count)).so_far() == (*count).so_far() + 1
                &&& !(step is Progress) ==> (*final(count)).so_far() == (*count).so_far()
                &&& step is Ready ==> step->Ready_0 == (*count).so_far()
                &&& (*final(count)).source() == (*count).source()
            },
{
}

/// A function is called for each item, and all is done where the stream has ended.
pub proof fn law_each_item_is_handed_over<St: Stream, F: Fn(St::Item)>()
    ensures
        forall|each: &mut ForEach<St, F>, step: Step<()>| #[trigger]
            call_ensures(ForEach::<St, F>::step, (each,), step) ==> {
                let (from, to) = ((*each).source(), (*final(each)).source());
                &&& step is Pending ==> St::answers(from, to, Poll::Pending)
                &&& step is Ready ==> St::answers(from, to, Poll::Ready(None))
                &&& (*final(each)).function() == (*each).function()
            },
        forall|each: &mut ForEach<St, F>, step: Step<()>| #[trigger]
            call_ensures(ForEach::<St, F>::step, (each,), step) && step is Progress ==> exists|
                item: St::Item,
            |
                #[trigger] St::answers(
                    (*each).source(),
                    (*final(each)).source(),
                    Poll::Ready(Some(item)),
                ) && (*each).function().ensures((item,), ()),
{
    assert forall|each: &mut ForEach<St, F>, step: Step<()>| #[trigger]
        call_ensures(ForEach::<St, F>::step, (each,), step) && step is Progress implies exists|
        item: St::Item,
    |
        #[trigger] St::answers(
            (*each).source(),
            (*final(each)).source(),
            Poll::Ready(Some(item)),
        ) && (*each).function().ensures((item,), ()) by {
        let (from, to) = ((*each).source(), (*final(each)).source());
        let poll = choose|poll: Poll<Option<St::Item>>|
            {
                &&& #[trigger] St::answers(from, to, poll)
                &&& St::gives(from, to, super::yielded(poll))
                &&& match poll {
                    Poll::Pending => step is Pending,
                    Poll::Ready(None) => step is Ready,
                    Poll::Ready(Some(item)) => step is Progress && (*each).function().ensures(
                        (item,),
                        (),
                    ),
                }
            };
        let item = poll->Ready_0->0;
        assert(St::answers(from, to, Poll::Ready(Some(item))));
    }
}

/// A collection takes each item, and comes out finished where the stream has ended.
pub proof fn law_collections_take_each_item<St: Stream, B: FromStream<St::Item>>()
    ensures
        forall|
            collect: &mut Collect<St, B>,
            poll: Poll<Option<St::Item>>,
            step: Step<B>,
        | #[trigger]
            call_ensures(Collect::<St, B>::put, (collect, poll), step) && (
            *collect).so_far() is Some ==> {
                let has = (*collect).so_far()->0;
                &&& step is Pending <==> poll is Pending
                &&& step is Ready <==> poll is Ready && poll->Ready_0 is None
                &&& step is Ready ==> B::finishes(has, step->Ready_0)
                    && (*final(collect)).so_far() is None
                &&& step is Pending ==> (*final(collect)).so_far() == (*collect).so_far()
                &&& step is Progress ==> (*final(collect)).so_far() is Some && B::extends(
                    has,
                    (*final(collect)).so_far()->0,
                    poll->Ready_0->0,
                )
                &&& (*final(collect)).source() == (*collect).source()
            },
{
}

/// A list takes an item behind the others, and is finished as it is.
pub proof fn law_lists_take_items_at_the_end<T>(before: Vec<T>, after: Vec<T>, item: T)
    ensures
        <Vec<T> as FromStream<T>>::extends(before, after, item) ==> after@ == before@ + seq![item],
        <Vec<T> as FromStream<T>>::finishes(before, after) ==> after@ == before@,
{
    assert(before@.push(item) =~= before@ + seq![item]);
}

/// A stream around a supply begins with nothing given and nothing asked, and keeps every
/// answer of the supply, in order.
pub proof fn law_supplied_streams_keep_their_answers<S: Supply>(
    before: Supplied<S>,
    after: Supplied<S>,
    poll: Poll<Option<S::Item>>,
)
    ensures
        forall|supply: S, made: Supplied<S>| #[trigger]
            call_ensures(Supplied::<S>::new, (supply,), made) ==> made.source() == supply
                && made.so_far().len() == 0 && made.answered().len() == 0,
        Supplied::<S>::answers(before, after, poll) ==> after.answered() == before.answered()
            + seq![poll],
{
    assert(before.answered().push(poll) =~= before.answered() + seq![poll]);
}

} // verus!
