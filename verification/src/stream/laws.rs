//! What streams made from streams give.

use super::{yielded, Count, Filter, Fold, Fuse, Iter, Mapped, Step, Stream};
use crate::poll::Poll;
use vstd::prelude::*;

verus! {

/// A poll gives an item exactly where it is ready with one.
pub proof fn law_a_poll_gives_at_most_one<T>(poll: Poll<Option<T>>)
    ensures
        yielded(poll).len() <= 1,
        yielded(poll).len() == 1 <==> poll is Ready && poll->Ready_0 is Some,
        yielded(poll).len() == 1 ==> yielded(poll)[0] == poll->Ready_0->0,
{
}

/// A stream of given items gives the first of them, then the next, and ends behind the
/// last. It never waits.
pub proof fn law_given_items_come_in_order<T>(
    before: Iter<T>,
    after: Iter<T>,
    poll: Poll<Option<T>>,
)
    requires
        Iter::answers(before, after, poll),
    ensures
        poll is Ready,
        poll->Ready_0 is Some <==> before.left().len() > 0,
        poll->Ready_0 is Some ==> seq![poll->Ready_0->0] + after.left() == before.left(),
        poll->Ready_0 is None ==> after.left().len() == 0,
{
    if before.left().len() > 0 {
        assert(seq![before.left()[0]] + before.left().skip(1) =~= before.left());
    }
}

/// A mapped stream waits and ends with the stream underneath, and gives for each of its
/// items what the function gives for it.
pub proof fn law_mapped_items_are_changed_one_by_one<St: Stream, B, F: Fn(St::Item) -> B>(
    before: Mapped<St, F>,
    after: Mapped<St, F>,
    poll: Poll<Option<B>>,
) -> (inner: Poll<Option<St::Item>>)
    requires
        Mapped::<St, F>::answers(before, after, poll),
    ensures
        St::answers(before.source(), after.source(), inner),
        inner is Pending <==> poll is Pending,
        inner is Ready && inner->Ready_0 is None <==> poll is Ready && poll->Ready_0 is None,
        inner is Ready && inner->Ready_0 is Some ==> before.function().ensures(
            (inner->Ready_0->0,),
            poll->Ready_0->0,
        ),
{
    choose|inner: Poll<Option<St::Item>>|
        {
            &&& #[trigger] St::answers(before.source(), after.source(), inner)
            &&& before.function() == after.function()
            &&& match inner {
                Poll::Pending => poll is Pending,
                Poll::Ready(None) => poll == Poll::<Option<B>>::Ready(None),
                Poll::Ready(Some(item)) => poll matches Poll::Ready(Some(changed))
                    && before.function().ensures((item,), changed),
            }
        }
}

/// An item comes through a filter as it is, and only where the function says yes. One that
/// does not is passed over, and the stream goes on.
pub proof fn law_filtered_items_are_those_asked_for<St: Stream, F: Fn(&St::Item) -> bool>(
    f: F,
    poll: Poll<Option<St::Item>>,
    step: Step<Option<St::Item>>,
)
    requires
        Filter::<St, F>::decided(f, poll, step),
    ensures
        step is Pending <==> poll is Pending,
        step is Ready && step->Ready_0 is None <==> poll is Ready && poll->Ready_0 is None,
        step is Ready && step->Ready_0 is Some ==> poll is Ready && poll->Ready_0 is Some
            && poll->Ready_0->0 == step->Ready_0->0 && f.ensures((&step->Ready_0->0,), true),
        step is Progress ==> poll is Ready && poll->Ready_0 is Some && f.ensures(
            (&poll->Ready_0->0,),
            false,
        ),
{
}

/// Behind its end a fused stream gives nothing and asks nothing; until then it says what
/// the stream underneath says.
pub proof fn law_fused_streams_end_once<St: Stream>(
    before: Fuse<St>,
    after: Fuse<St>,
    poll: Poll<Option<St::Item>>,
)
    requires
        Fuse::<St>::answers(before, after, poll),
    ensures
        before.ended() ==> poll is Ready && poll->Ready_0 is None && after.ended()
            && after == before,
        !before.ended() ==> St::answers(before.source(), after.source(), poll),
        after.ended() <==> before.ended() || poll is Ready && poll->Ready_0 is None,
{
}

/// A fold puts each item to what it has, and hands that out at the end as it is.
pub proof fn law_folds_put_items_together<St: Stream, B, F: Fn(B, St::Item) -> B>(
    f: F,
    before: Option<B>,
    after: Option<B>,
    poll: Poll<Option<St::Item>>,
    step: Step<B>,
)
    requires
        Fold::<St, B, F>::put_together(f, before, after, poll, step),
        before is Some,
    ensures
        step is Pending <==> poll is Pending,
        step is Pending ==> after == before,
        step is Ready <==> poll is Ready && poll->Ready_0 is None,
        step is Ready ==> step->Ready_0 == before->0,
        step is Progress ==> poll is Ready && poll->Ready_0 is Some && after is Some && f.ensures(
            (before->0, poll->Ready_0->0),
            after->0,
        ),
{
}

/// A count is handed out at the end, and not before.
pub proof fn law_counts_come_at_the_end<St: Stream>(so_far: nat, poll: Poll<Option<St::Item>>)
    requires
        so_far <= usize::MAX,
    ensures
        ({
            let step = Count::<St>::counted(so_far, poll);
            &&& step is Ready <==> poll is Ready && poll->Ready_0 is None
            &&& step is Ready ==> step->Ready_0 == so_far
            &&& step is Pending <==> poll is Pending
        }),
{
}

} // verus!
