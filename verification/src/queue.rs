//! A queue that hands out its most urgent task first.

use crate::types::{Task, TaskView};
use vstd::multiset::Multiset;
use vstd::prelude::*;

verus! {

/// What each task of `items` holds.
pub open spec fn views(items: Seq<Task>) -> Seq<TaskView> {
    items.map_values(|t: Task| t@)
}

/// No task of `waiting` comes before `t`.
pub open spec fn foremost(waiting: Multiset<TaskView>, t: TaskView) -> bool {
    forall|u: TaskView| #[trigger] waiting.contains(u) ==> !t.behind(u)
}

/// No task comes before the one at its parent's place.
spec fn is_heap(s: Seq<TaskView>) -> bool {
    forall|c: int| 0 < c < s.len() ==> !s[(c - 1) / 2].behind(#[trigger] s[c])
}

/// `is_heap`, except that the task at `i` may belong further up.
spec fn is_heap_above(s: Seq<TaskView>, i: int) -> bool {
    &&& forall|c: int| 0 < c < s.len() && c != i ==> !s[(c - 1) / 2].behind(#[trigger] s[c])
    &&& forall|c: int|
        0 < c < s.len() && 0 < i && (c - 1) / 2 == i ==> !s[(i - 1) / 2].behind(#[trigger] s[c])
}

/// `is_heap`, except that the task at `i` may belong further down.
spec fn is_heap_below(s: Seq<TaskView>, i: int) -> bool {
    &&& forall|c: int|
        0 < c < s.len() && (c - 1) / 2 != i ==> !s[(c - 1) / 2].behind(#[trigger] s[c])
    &&& forall|c: int|
        0 < c < s.len() && 0 < i && (c - 1) / 2 == i ==> !s[(i - 1) / 2].behind(#[trigger] s[c])
}

/// The tasks that wait for a worker, most urgent first and, of equally urgent
/// ones, the earliest created first. Its view is the collection of the tasks.
pub struct TaskQueue {
    /// The children of the task at `i` stand at `2 * i + 1` and `2 * i + 2`.
    items: Vec<Task>,
}

impl View for TaskQueue {
    type V = Multiset<TaskView>;

    closed spec fn view(&self) -> Multiset<TaskView> {
        views(self.items@).to_multiset()
    }
}

impl TaskQueue {
    /// The queue is laid out so that its first task comes behind no other.
    pub closed spec fn wf(&self) -> bool {
        is_heap(views(self.items@))
    }

    pub fn new() -> (q: TaskQueue)
        ensures
            q.wf(),
            q@ == Multiset::<TaskView>::empty(),
    {
        let q = TaskQueue { items: Vec::new() };
        proof {
            broadcast use vstd::seq_lib::group_to_multiset_ensures;

            assert(q@ =~= Multiset::<TaskView>::empty());
        }
        q
    }

    pub fn len(&self) -> (n: usize)
        ensures
            n == self@.len(),
    {
        proof {
            broadcast use vstd::seq_lib::group_to_multiset_ensures;

        }
        self.items.len()
    }

    pub fn push(&mut self, task: Task)
        requires
            old(self).wf(),
        ensures
            final(self).wf(),
            final(self)@ == old(self)@.insert(task@),
    {
        let last: usize = self.items.len();
        self.items.push(task);
        proof {
            broadcast use vstd::seq_lib::group_to_multiset_ensures;

            let s = views(old(self).items@);
            assert(views(self.items@) =~= s.push(task@));
            assert(is_heap_above(views(self.items@), last as int)) by {
                assert forall|c: int| 0 < c < s.len() implies !s.push(task@)[(c - 1) / 2].behind(
                    #[trigger] s.push(task@)[c],
                ) by {
                    assert(!s[(c - 1) / 2].behind(s[c]));
                }
            }
        }
        self.sift_up(last);
    }

    /// Moves the task at `start` up to where it belongs.
    fn sift_up(&mut self, start: usize)
        requires
            start < old(self).items@.len(),
            is_heap_above(views(old(self).items@), start as int),
        ensures
            final(self).wf(),
            final(self)@ == old(self)@,
    {
        let mut i: usize = start;
        while i > 0
            invariant
                i < self.items@.len(),
                is_heap_above(views(self.items@), i as int),
                self@ == old(self)@,
            decreases i,
        {
            let parent: usize = (i - 1) / 2;
            if !self.items[parent].is_behind(&self.items[i]) {
                return ;
            }
            let ghost s = views(self.items@);
            swap_items(&mut self.items, parent, i);
            proof {
                let t = views(self.items@);
                assert(t =~= s.update(parent as int, s[i as int]).update(
                    i as int,
                    s[parent as int],
                ));
                lemma_swap_keeps_contents(s, parent as int, i as int);
                assert forall|c: int| 0 < c < t.len() && c != parent implies !t[(c - 1)
                    / 2].behind(#[trigger] t[c]) by {
                    assert(c != i ==> !s[(c - 1) / 2].behind(s[c]));
                    assert((c - 1) / 2 == i ==> !s[parent as int].behind(s[c]));
                }
                assert forall|c: int|
                    0 < c < t.len() && 0 < parent && (c - 1) / 2 == parent implies !t[(parent - 1)
                    / 2].behind(#[trigger] t[c]) by {
                    assert(!s[(parent - 1) / 2].behind(s[parent as int]));
                    assert(c != i ==> !s[parent as int].behind(s[c]));
                }
            }
            i = parent;
        }
    }

    /// Takes out a task that no other comes before.
    pub fn pop(&mut self) -> (task: Option<Task>)
        requires
            old(self).wf(),
        ensures
            final(self).wf(),
            task is None <==> old(self)@.len() == 0,
            match task {
                Some(t) => {
                    &&& old(self)@.contains(t@)
                    &&& foremost(old(self)@, t@)
                    &&& final(self)@ == old(self)@.remove(t@)
                },
                None => final(self)@ == old(self)@,
            },
    {
        broadcast use vstd::seq_lib::group_to_multiset_ensures;

        if self.items.len() == 0 {
            return None;
        }
        let ghost s = views(self.items@);
        let task = self.items.swap_remove(0);
        proof {
            let t = views(self.items@);
            assert(t =~= s.update(0, s.last()).drop_last());
            lemma_first_out(s);
            assert(s[0] == task@);
            assert forall|u: TaskView| #[trigger] old(self)@.contains(u) implies !task@.behind(
                u,
            ) by {
                assert(s.contains(u));
                let k = choose|k: int| 0 <= k < s.len() && s[k] == u;
                lemma_root_is_foremost(s, k);
            }
            assert forall|c: int| 0 < c < t.len() && (c - 1) / 2 != 0 implies !t[(c - 1)
                / 2].behind(#[trigger] t[c]) by {
                assert(!s[(c - 1) / 2].behind(s[c]));
            }
        }
        if self.items.len() > 0 {
            self.sift_down();
        }
        Some(task)
    }

    /// Moves the first task down to where it belongs.
    fn sift_down(&mut self)
        requires
            0 < old(self).items@.len(),
            is_heap_below(views(old(self).items@), 0),
        ensures
            final(self).wf(),
            final(self)@ == old(self)@,
    {
        let mut i: usize = 0;
        let len: usize = self.items.len();
        while i < len / 2
            invariant
                i < len,
                len == self.items@.len(),
                is_heap_below(views(self.items@), i as int),
                self@ == old(self)@,
            decreases len - i,
        {
            let mut child: usize = 2 * i + 1;
            if child + 1 < len && self.items[child].is_behind(&self.items[child + 1]) {
                child = child + 1;
            }
            let ghost s = views(self.items@);
            if !self.items[i].is_behind(&self.items[child]) {
                proof {
                    assert forall|c: int| 0 < c < s.len() implies !s[(c - 1) / 2].behind(
                        #[trigger] s[c],
                    ) by {
                        if (c - 1) / 2 == i {
                            assert(c == 2 * i + 1 || c == 2 * i + 2);
                        }
                    }
                }
                return ;
            }
            swap_items(&mut self.items, i, child);
            proof {
                let t = views(self.items@);
                assert(t =~= s.update(i as int, s[child as int]).update(
                    child as int,
                    s[i as int],
                ));
                lemma_swap_keeps_contents(s, i as int, child as int);
                assert forall|c: int| 0 < c < t.len() && (c - 1) / 2 != child implies !t[(c - 1)
                    / 2].behind(#[trigger] t[c]) by {
                    if (c - 1) / 2 == i {
                        assert(c == 2 * i + 1 || c == 2 * i + 2);
                    } else {
                        assert(!s[(c - 1) / 2].behind(s[c]));
                        assert(0 < i ==> !s[(i - 1) / 2].behind(s[child as int]));
                    }
                }
                assert forall|c: int|
                    0 < c < t.len() && 0 < child && (c - 1) / 2 == child implies !t[(child - 1)
                    / 2].behind(#[trigger] t[c]) by {
                    assert(!s[child as int].behind(s[c]));
                }
            }
            i = child;
        }
        proof {
            let s = views(self.items@);
            assert forall|c: int| 0 < c < s.len() implies !s[(c - 1) / 2].behind(
                #[trigger] s[c],
            ) by {
                assert((c - 1) / 2 != i);
            }
        }
    }
}

/// Exchanges two items.
fn swap_items(items: &mut Vec<Task>, i: usize, j: usize)
    requires
        i < j < old(items)@.len(),
    ensures
        final(items)@ == old(items)@.update(i as int, old(items)@[j as int]).update(
            j as int,
            old(items)@[i as int],
        ),
{
    let (left, right) = items.as_mut_slice().split_at_mut(j);
    core::mem::swap(&mut left[i], &mut right[0]);
}

proof fn lemma_swap_keeps_contents(s: Seq<TaskView>, i: int, j: int)
    requires
        0 <= i < j < s.len(),
    ensures
        s.update(i, s[j]).update(j, s[i]).to_multiset() == s.to_multiset(),
{
    broadcast use vstd::seq_lib::group_to_multiset_ensures;

    vstd::seq_lib::to_multiset_update(s, i, s[j]);
    vstd::seq_lib::to_multiset_update(s.update(i, s[j]), j, s[i]);
    assert(s.to_multiset().contains(s[i]));
    assert(s.update(i, s[j]).update(j, s[i]).to_multiset() =~= s.to_multiset());
}

proof fn lemma_first_out(s: Seq<TaskView>)
    requires
        0 < s.len(),
    ensures
        s.update(0, s.last()).drop_last().to_multiset() == s.to_multiset().remove(s[0]),
{
    broadcast use vstd::seq_lib::group_to_multiset_ensures;

    let u = s.update(0, s.last());
    vstd::seq_lib::to_multiset_update(s, 0, s.last());
    assert(u =~= u.drop_last().push(u.last()));
    vstd::seq_lib::to_multiset_build(u.drop_last(), u.last());
    assert(s.to_multiset().contains(s[0]));
    assert(s.to_multiset().insert(s.last()) == u.to_multiset().insert(s[0]));
    assert(u.last() == s.last());
    assert(u.to_multiset() == u.drop_last().to_multiset().insert(s.last()));
    assert forall|x: TaskView|
        u.drop_last().to_multiset().count(x) == s.to_multiset().remove(s[0]).count(x) by {
        assert(s.to_multiset().insert(s.last()).count(x) == u.to_multiset().insert(s[0]).count(x));
    }
    assert(u.drop_last().to_multiset() =~= s.to_multiset().remove(s[0]));
}

proof fn lemma_root_is_foremost(s: Seq<TaskView>, k: int)
    requires
        is_heap(s),
        0 <= k < s.len(),
    ensures
        !s[0].behind(s[k]),
    decreases k,
{
    if k > 0 {
        lemma_root_is_foremost(s, (k - 1) / 2);
        assert(!s[(k - 1) / 2].behind(s[k]));
    }
}

} // verus!
