//! What the scheduler and the pool do, said of plain numbers and fields.

use crate::channel::{channel_limit, connected, room_shown, Offer};
use crate::laws::{
    law_flush_keeps_all_tasks, law_least_loaded_finds_the_least, law_removed_worker_is_gone,
    lemma_id_after,
};
use crate::pool::{
    fresh_workers, last_ids, new_pool, offer_answered, scale_rule, scaled, started, without_workers,
    NewWorker, PoolView, ScaleDecision, ScaleStep,
};
use crate::queue::foremost;
use crate::scheduler::{
    clock_readings, dispatched, first_with_room, flushed_by_clock, held_back, ids_of, least_loaded,
    least_loaded_sent, load_of, loads_reading, next_sent, next_sent_by_reading, one_less, one_more,
    queues_flushed, released, room_of, rooms_reading, sent, smallest, without_worker,
    DispatchStepView, SchedulerView, WorkerSlot,
};
use crate::time::Timestamp;
use crate::types::{PoolConfig, ScheduleStrategy, SubmitError, Task, TaskView};
use crate::values::law_foremost_is_behind_none;
use crate::worker::{buried, counted, TaskResultView};
use tokio::sync::mpsc::Receiver;
use vstd::multiset::Multiset;
use vstd::prelude::*;

verus! {

// Workers.

/// Counters of the machine's word size start over from zero past their greatest
/// value, and from the greatest below zero; one more and one less undo each
/// other.
pub proof fn law_counting_up_and_down(n: usize)
    ensures
        one_more(n) == (n + 1) % (usize::MAX + 1),
        n > 0 ==> one_less(n) == n - 1,
        one_less(0) == usize::MAX,
        one_less(one_more(n)) == n,
        one_more(one_less(n)) == n,
{
    if n < usize::MAX {
        vstd::arithmetic::div_mod::lemma_small_mod((n + 1) as nat, (usize::MAX + 1) as nat);
    } else {
        vstd::arithmetic::div_mod::lemma_mod_self_0(usize::MAX + 1);
    }
}

/// Removing an id goes through the workers one by one: each with that id goes,
/// each other stays, in its place among the others.
pub proof fn law_removing_goes_through_all(workers: Seq<WorkerSlot>, w: WorkerSlot, id: usize)
    ensures
        without_worker(Seq::empty(), id) == Seq::<WorkerSlot>::empty(),
        without_worker(workers.push(w), id) == if w.id == id {
            without_worker(workers, id)
        } else {
            without_worker(workers, id).push(w)
        },
{
    reveal(Seq::filter);
    assert(workers.push(w).drop_last() =~= workers);
}

/// The ids of the workers are those of each, in their order, and the last ones
/// are counted from the end.
pub proof fn law_ids_are_those_of_the_workers(workers: Seq<WorkerSlot>, count: int, i: int)
    requires
        0 <= count <= workers.len(),
    ensures
        ids_of(workers).len() == workers.len(),
        0 <= i < workers.len() ==> ids_of(workers)[i] == workers[i].id,
        last_ids(workers, count).len() == count,
        0 <= i < count ==> last_ids(workers, count)[i] == workers[workers.len() - 1 - i].id,
{
}

/// Of many ids each is removed, and nothing else.
pub proof fn law_removing_many_removes_just_these(
    workers: Seq<WorkerSlot>,
    ids: Seq<usize>,
    w: WorkerSlot,
)
    ensures
        without_workers(workers, ids).contains(w) <==> workers.contains(w) && !ids.contains(w.id),
    decreases ids.len(),
{
    if ids.len() > 0 {
        let left = without_workers(workers, ids.drop_last());
        law_removing_many_removes_just_these(workers, ids.drop_last(), w);
        law_removed_worker_is_gone(left, ids.last(), w);
        assert(ids =~= ids.drop_last().push(ids.last()));
        assert(ids.contains(w.id) <==> ids.drop_last().contains(w.id) || ids.last() == w.id) by {
            if ids.contains(w.id) {
                let k = choose|k: int| 0 <= k < ids.len() && ids[k] == w.id;
                if k < ids.len() - 1 {
                    assert(ids.drop_last()[k] == w.id);
                }
            }
            if ids.drop_last().contains(w.id) {
                let k = choose|k: int|
                    0 <= k < ids.drop_last().len() && ids.drop_last()[k] == w.id;
                assert(ids[k] == w.id);
            }
            assert(ids[ids.len() - 1] == ids.last());
        }
    }
}

// Round robin and least loaded.

/// Round robin sends the task itself to the worker whose turn it is, counts it
/// as pending and passes the turn on; without workers it refuses.
pub proof fn law_round_robin_sends_by_turn(
    pre: SchedulerView,
    task: TaskView,
    post: SchedulerView,
    step: DispatchStepView,
)
    requires
        pre.strategy == ScheduleStrategy::RoundRobin,
        pre.workers.len() <= usize::MAX,
        dispatched(pre, task, post, step),
    ensures
        pre.workers.len() == 0 ==> step == DispatchStepView::Finished(false) && post == pre,
        pre.workers.len() > 0 ==> {
            &&& step matches DispatchStepView::Send { worker, task: out } && out == task && worker
                == pre.rr_index as int % pre.workers.len() as int
            &&& post.rr_index == (pre.rr_index + 1) % (usize::MAX + 1)
            &&& post.pending == (pre.pending + 1) % (usize::MAX + 1)
            &&& post.workers == pre.workers
            &&& post.queue == pre.queue
            &&& post.delayed == pre.delayed
            &&& post.strategy == pre.strategy
        },
{
    law_counting_up_and_down(pre.rr_index);
    law_counting_up_and_down(pre.pending);
    if pre.workers.len() > 0 {
        vstd::arithmetic::div_mod::lemma_mod_bound(pre.rr_index as int, pre.workers.len() as int);
    }
}

/// Where the rooms that the channels show hold still, a least loaded dispatch
/// sends the task itself to a worker that has no more tasks waiting, as its
/// channel's size less its room, than any other, and to the first of those. The
/// task counts as pending.
pub proof fn law_least_loaded_has_fewest_waiting(
    pre: SchedulerView,
    task: TaskView,
    post: SchedulerView,
    step: DispatchStepView,
    rooms: Seq<usize>,
)
    requires
        pre.strategy == ScheduleStrategy::LeastLoaded,
        pre.workers.len() > 0,
        rooms.len() == pre.workers.len(),
        forall|j: int, n: usize|
            0 <= j < pre.workers.len() && #[trigger] room_shown(pre.workers[j].tx, n) ==> n
                == rooms[j],
        dispatched(pre, task, post, step),
    ensures
        step matches DispatchStepView::Send { worker, task: out } && {
            let w = worker as int;
            &&& out == task
            &&& w < pre.workers.len()
            &&& forall|j: int|
                0 <= j < pre.workers.len() ==> channel_limit(pre.workers[w].tx) - rooms[w]
                    <= channel_limit((#[trigger] pre.workers[j]).tx) - rooms[j]
            &&& forall|j: int|
                0 <= j < w ==> channel_limit(pre.workers[w].tx) - rooms[w] < channel_limit(
                    (#[trigger] pre.workers[j]).tx,
                ) - rooms[j]
        },
        post.pending == (pre.pending + 1) % (usize::MAX + 1),
        post == (SchedulerView { pending: post.pending, ..pre }),
{
    law_counting_up_and_down(pre.pending);
    let (loads, again) = choose|loads: Seq<usize>, again: Seq<usize>| #[trigger]
        loads_reading(pre.workers, loads) && #[trigger] loads_reading(pre.workers, again)
            && least_loaded_sent(pre, task, loads, again, post, step);
    assert forall|j: int| 0 <= j < pre.workers.len() implies #[trigger] loads[j] == again[j]
        && loads[j] == channel_limit(pre.workers[j].tx) - rooms[j] by {
        assert(load_of(pre.workers[j], loads[j]));
        assert(load_of(pre.workers[j], again[j]));
    }
    assert(loads =~= again);
    let picked: Option<usize> = match step {
        DispatchStepView::Send { worker, .. } => Some(worker),
        DispatchStepView::Finished(_) => None,
    };
    law_least_loaded_finds_the_least(loads, picked);
    law_least_loaded_of_two_lists(loads, again, picked);
    let w = picked->0 as int;
    assert forall|j: int| 0 <= j < pre.workers.len() implies channel_limit(pre.workers[w].tx)
        - rooms[w] <= channel_limit((#[trigger] pre.workers[j]).tx) - rooms[j] by {
        assert(loads[w] <= loads[j]);
    }
    assert forall|j: int| 0 <= j < w implies channel_limit(pre.workers[w].tx) - rooms[w]
        < channel_limit((#[trigger] pre.workers[j]).tx) - rooms[j] by {
        assert(again[j] != again[w]);
        assert(loads[w] <= loads[j]);
    }
}

/// Also where the rooms move, the worker that a least loaded dispatch sends to
/// has shown that no more tasks wait for it than each other has shown. A refusal
/// means that every worker has shown another number of waiting tasks than the
/// fewest that one has shown.
pub proof fn law_least_loaded_goes_by_what_was_shown(
    pre: SchedulerView,
    task: TaskView,
    post: SchedulerView,
    step: DispatchStepView,
    j: int,
)
    requires
        pre.strategy == ScheduleStrategy::LeastLoaded,
        0 <= j < pre.workers.len(),
        dispatched(pre, task, post, step),
    ensures
        step matches DispatchStepView::Send { worker, task: out } ==> {
            &&& out == task
            &&& worker < pre.workers.len()
            &&& exists|mine: usize, theirs: usize|
                {
                    &&& #[trigger] room_shown(pre.workers[worker as int].tx, mine)
                    &&& #[trigger] room_shown(pre.workers[j].tx, theirs)
                    &&& channel_limit(pre.workers[worker as int].tx) - mine <= channel_limit(
                        pre.workers[j].tx,
                    ) - theirs
                }
        },
        step matches DispatchStepView::Finished(accepted) ==> {
            &&& !accepted
            &&& post == pre
            &&& exists|least: int, room: usize| #![trigger room_shown(pre.workers[least].tx, room)]
                {
                    &&& 0 <= least < pre.workers.len()
                    &&& room_shown(pre.workers[least].tx, room)
                    &&& exists|theirs: usize| #[trigger]
                        room_shown(pre.workers[j].tx, theirs) && channel_limit(
                            pre.workers[least].tx,
                        ) - room <= channel_limit(pre.workers[j].tx) - theirs
                    &&& exists|later: usize| #[trigger]
                        room_shown(pre.workers[j].tx, later) && channel_limit(
                            pre.workers[least].tx,
                        ) - room != channel_limit(pre.workers[j].tx) - later
                }
        },
{
    let (loads, again) = choose|loads: Seq<usize>, again: Seq<usize>| #[trigger]
        loads_reading(pre.workers, loads) && #[trigger] loads_reading(pre.workers, again)
            && least_loaded_sent(pre, task, loads, again, post, step);
    let picked: Option<usize> = match step {
        DispatchStepView::Send { worker, .. } => Some(worker),
        DispatchStepView::Finished(_) => None,
    };
    law_least_loaded_of_two_lists(loads, again, picked);
    let m = choose|m: int|
        {
            &&& 0 <= m < loads.len()
            &&& forall|k: int| 0 <= k < loads.len() ==> #[trigger] loads[m] <= #[trigger] loads[k]
            &&& picked matches Some(w) ==> again[w as int] == loads[m]
        };
    assert(load_of(pre.workers[j], loads[j]));
    let theirs = choose|r: usize| #[trigger]
        room_of(pre.workers[j], r) && loads[j] == channel_limit(pre.workers[j].tx) - r;
    assert(loads[m] <= loads[j]);
    if let Some(w) = picked {
        assert(load_of(pre.workers[w as int], again[w as int]));
        let mine = choose|r: usize| #[trigger]
            room_of(pre.workers[w as int], r) && again[w as int] == channel_limit(
                pre.workers[w as int].tx,
            ) - r;
        assert(room_shown(pre.workers[w as int].tx, mine) && room_shown(
            pre.workers[j].tx,
            theirs,
        ));
    } else {
        assert(load_of(pre.workers[m], loads[m]));
        let room = choose|r: usize| #[trigger]
            room_of(pre.workers[m], r) && loads[m] == channel_limit(pre.workers[m].tx) - r;
        assert(load_of(pre.workers[j], again[j]));
        let later = choose|r: usize| #[trigger]
            room_of(pre.workers[j], r) && again[j] == channel_limit(pre.workers[j].tx) - r;
        assert(again[j] != loads[m]);
        assert(room_shown(pre.workers[m].tx, room));
        assert(room_shown(pre.workers[j].tx, theirs));
        assert(room_shown(pre.workers[j].tx, later));
    }
}

/// The worker that is picked by two lists of loads carries on the second list
/// what is the least on the first, and no worker before it does. None is picked
/// exactly if none carries that.
pub proof fn law_least_loaded_of_two_lists(
    loads: Seq<usize>,
    again: Seq<usize>,
    worker: Option<usize>,
)
    requires
        least_loaded(loads, again, worker),
    ensures
        exists|m: int|
            {
                &&& 0 <= m < loads.len()
                &&& forall|k: int|
                    0 <= k < loads.len() ==> #[trigger] loads[m] <= #[trigger] loads[k]
                &&& worker matches Some(w) ==> again[w as int] == loads[m]
            },
        worker matches Some(w) ==> {
            &&& w < again.len()
            &&& forall|j: int| 0 <= j < w ==> #[trigger] again[j] != again[w as int]
        },
        worker is None ==> forall|m: int, j: int|
            0 <= m < loads.len() && 0 <= j < again.len() && (forall|k: int|
                0 <= k < loads.len() ==> loads[m] <= #[trigger] loads[k]) ==> #[trigger] loads[m]
                != #[trigger] again[j],
{
    let least = choose|least: usize| #[trigger]
        smallest(loads, least) && match worker {
            Some(w) => {
                &&& w < again.len()
                &&& again[w as int] == least
                &&& forall|j: int| 0 <= j < w ==> #[trigger] again[j] != least
            },
            None => !again.contains(least),
        };
    let m = choose|m: int| 0 <= m < loads.len() && loads[m] == least;
    assert(0 <= m < loads.len() && loads[m] == least);
    assert forall|k: int| 0 <= k < loads.len() implies #[trigger] loads[m] <= #[trigger] loads[k] by {
        assert(least <= loads[k]);
    }
    if worker is None {
        assert forall|n: int, j: int|
            0 <= n < loads.len() && 0 <= j < again.len() && (forall|k: int|
                0 <= k < loads.len() ==> loads[n] <= #[trigger] loads[k]) implies #[trigger] loads[n]
            != #[trigger] again[j] by {
            assert(loads[n] <= loads[m]);
            assert(least <= loads[n]);
            assert(again.contains(again[j]));
        }
    }
}

// Queues.

/// The worker with room is the first that has any; where none has, the first of
/// all.
pub proof fn law_first_worker_with_room(rooms: Seq<usize>, worker: int, j: int)
    requires
        first_with_room(rooms, worker),
        0 <= j < rooms.len(),
    ensures
        0 <= worker < rooms.len(),
        rooms[j] > 0 ==> worker <= j && rooms[worker] > 0,
        rooms[worker] == 0 ==> worker == 0,
{
    if rooms[j] > 0 {
        assert(rooms[worker] > 0);
        if worker > j {
            assert(rooms[j] == 0);
        }
    }
}

/// Where the rooms that the channels show hold still, a task out of the queue is
/// sent to the first worker with room, or to the first of all where none has
/// any.
pub proof fn law_queue_goes_to_the_first_with_room(
    pre: SchedulerView,
    post: SchedulerView,
    worker: usize,
    task: TaskView,
    rooms: Seq<usize>,
    j: int,
)
    requires
        rooms.len() == pre.workers.len(),
        forall|j: int, n: usize|
            0 <= j < pre.workers.len() && #[trigger] room_shown(pre.workers[j].tx, n) ==> n
                == rooms[j],
        next_sent_by_reading(pre, post, DispatchStepView::Send { worker, task }),
        0 <= j < rooms.len(),
    ensures
        worker < pre.workers.len(),
        rooms[j] > 0 ==> worker <= j && rooms[worker as int] > 0,
        rooms[worker as int] == 0 ==> worker == 0,
{
    let shown = choose|shown: Seq<usize>| #[trigger]
        rooms_reading(pre.workers, shown) && next_sent(
            pre,
            shown,
            post,
            DispatchStepView::Send { worker, task },
        );
    assert forall|k: int| 0 <= k < rooms.len() implies shown[k] == rooms[k] by {
        assert(room_of(pre.workers[k], shown[k]));
    }
    assert(shown =~= rooms);
    law_first_worker_with_room(rooms, worker as int, j);
}

/// One step of emptying the queue, in full: out of an empty queue nothing comes;
/// else one task leaves it that comes behind no other in it. It is sent where
/// there is a worker and dropped where there is none. All else stays.
pub proof fn law_one_task_leaves_the_queue(
    pre: SchedulerView,
    rooms: Seq<usize>,
    post: SchedulerView,
    step: DispatchStepView,
)
    requires
        next_sent(pre, rooms, post, step),
    ensures
        pre.queue.len() == 0 ==> post == pre && step == DispatchStepView::Finished(true),
        pre.queue.len() > 0 ==> exists|t: TaskView|
            {
                &&& #[trigger] pre.queue.count(t) > 0
                &&& forall|u: TaskView| #[trigger] pre.queue.count(u) > 0 ==> !t.behind(u)
                &&& post.queue == pre.queue.remove(t)
                &&& pre.workers.len() > 0 ==> (step matches DispatchStepView::Send { task, .. }
                    && task == t)
                &&& pre.workers.len() == 0 ==> step == DispatchStepView::Finished(true)
            },
        post.strategy == pre.strategy,
        post.workers == pre.workers,
        post.rr_index == pre.rr_index,
        post.delayed == pre.delayed,
        post.pending == pre.pending,
{
    if pre.queue.len() > 0 {
        let t = choose|t: TaskView|
            {
                &&& #[trigger] pre.queue.contains(t)
                &&& foremost(pre.queue, t)
                &&& post == (SchedulerView { queue: pre.queue.remove(t), ..pre })
                &&& if pre.workers.len() == 0 {
                    step == DispatchStepView::Finished(true)
                } else {
                    step matches DispatchStepView::Send { worker, task } && task == t
                        && first_with_room(rooms, worker as int)
                }
            };
        law_foremost_is_behind_none(pre.queue, t);
        assert(pre.queue.count(t) > 0);
    }
}

/// A flush goes through the delayed tasks one by one: one that is due at the
/// moment of the flush or at its own look goes to the queue, each other keeps
/// waiting, in its place among the others.
pub proof fn law_flush_goes_through_all(
    delayed: Seq<TaskView>,
    task: TaskView,
    now: Timestamp,
    looks: Seq<Timestamp>,
    look: Timestamp,
)
    requires
        looks.len() == delayed.len(),
    ensures
        released(Seq::empty(), now, Seq::empty()) == Seq::<TaskView>::empty(),
        held_back(Seq::empty(), now, Seq::empty()) == Seq::<TaskView>::empty(),
        task.due(now) || task.due(look) ==> {
            &&& released(delayed.push(task), now, looks.push(look)) == released(
                delayed,
                now,
                looks,
            ).push(task)
            &&& held_back(delayed.push(task), now, looks.push(look)) == held_back(
                delayed,
                now,
                looks,
            )
        },
        !task.due(now) && !task.due(look) ==> {
            &&& released(delayed.push(task), now, looks.push(look)) == released(
                delayed,
                now,
                looks,
            )
            &&& held_back(delayed.push(task), now, looks.push(look)) == held_back(
                delayed,
                now,
                looks,
            ).push(task)
        },
{
    assert(delayed.push(task).drop_last() =~= delayed);
    assert(looks.push(look).drop_last() =~= looks);
}

/// What a flush and an enqueueing change, and what they leave as it is. Only
/// `DelayedQueue` makes a task wait, and only one that is not due; the
/// strategies without queues drop the task.
pub proof fn law_queues_take_tasks_in(
    s: SchedulerView,
    task: TaskView,
    now: Timestamp,
    looks: Seq<Timestamp>,
)
    ensures
        s.flushed(now, looks).queue == s.queue.add(released(s.delayed, now, looks).to_multiset()),
        s.flushed(now, looks).delayed == held_back(s.delayed, now, looks),
        s.flushed(now, looks) == (SchedulerView {
            queue: s.flushed(now, looks).queue,
            delayed: s.flushed(now, looks).delayed,
            ..s
        }),
        s.enqueued(task, now) == s.placed(task, task.due(now)),
        s.strategy == ScheduleStrategy::Priority || (s.strategy == ScheduleStrategy::DelayedQueue
            && task.due(now)) ==> s.enqueued(task, now) == (SchedulerView {
            queue: s.queue.insert(task),
            ..s
        }),
        s.strategy == ScheduleStrategy::DelayedQueue && !task.due(now) ==> s.enqueued(task, now)
            == (SchedulerView { delayed: s.delayed.push(task), ..s }),
        s.strategy == ScheduleStrategy::RoundRobin || s.strategy == ScheduleStrategy::LeastLoaded
            ==> s.enqueued(task, now) == s,
        s.queued() == s.queue.len() + s.delayed.len(),
{
}

/// A scheduler starts without workers and tasks, with round robin at the first
/// worker.
pub proof fn law_scheduler_starts_empty(strategy: ScheduleStrategy, pending: usize)
    ensures
        SchedulerView::idle(strategy, pending).strategy == strategy,
        SchedulerView::idle(strategy, pending).pending == pending,
        SchedulerView::idle(strategy, pending).workers.len() == 0,
        SchedulerView::idle(strategy, pending).rr_index == 0,
        SchedulerView::idle(strategy, pending).queue == Multiset::<TaskView>::empty(),
        SchedulerView::idle(strategy, pending).delayed.len() == 0,
{
}

/// With a worker there, a flush neither loses nor doubles a task: those in the
/// queues afterwards and the one that is sent are those that were there.
pub proof fn law_flush_loses_nothing(
    pre: SchedulerView,
    post: SchedulerView,
    step: DispatchStepView,
)
    requires
        pre.workers.len() > 0,
        queues_flushed(pre, post, step),
    ensures
        match step {
            DispatchStepView::Send { task, .. } => post.queue.add(
                post.delayed.to_multiset(),
            ).insert(task) == pre.queue.add(pre.delayed.to_multiset()),
            DispatchStepView::Finished(accepted) => {
                &&& accepted
                &&& post.queue.len() == 0
                &&& post.queue.add(post.delayed.to_multiset()) == pre.queue.add(
                    pre.delayed.to_multiset(),
                )
            },
        },
        post.pending == pre.pending,
        post.workers == pre.workers,
        post.rr_index == pre.rr_index,
        post.strategy == pre.strategy,
{
    broadcast use {
        vstd::multiset::group_multiset_axioms,
        vstd::multiset::group_multiset_properties,
    };

    let mid = choose|mid: SchedulerView| #[trigger]
        flushed_by_clock(pre, mid) && next_sent_by_reading(mid, post, step);
    let (now, looks) = choose|now: Timestamp, looks: Seq<Timestamp>|
        {
            &&& now.clock_reading()
            &&& clock_readings(looks) && looks.len() == pre.delayed.len()
            &&& mid == #[trigger] pre.flushed(now, looks)
        };
    law_flush_keeps_all_tasks(pre, now, looks);
    let rooms = choose|rooms: Seq<usize>| #[trigger]
        rooms_reading(mid.workers, rooms) && next_sent(mid, rooms, post, step);
    law_one_task_leaves_the_queue(mid, rooms, post, step);
    if let DispatchStepView::Send { task, .. } = step {
        assert(mid.queue.count(task) > 0);
        assert(post.queue == mid.queue.remove(task));
        assert(post.queue.add(post.delayed.to_multiset()).insert(task) =~= mid.queue.add(
            mid.delayed.to_multiset(),
        ));
    }
}

/// With a worker there, a dispatch by queues neither loses nor doubles a task,
/// and counts the new one as pending.
pub proof fn law_dispatch_loses_nothing(
    pre: SchedulerView,
    task: TaskView,
    post: SchedulerView,
    step: DispatchStepView,
)
    requires
        pre.strategy == ScheduleStrategy::Priority || pre.strategy
            == ScheduleStrategy::DelayedQueue,
        pre.workers.len() > 0,
        dispatched(pre, task, post, step),
    ensures
        match step {
            DispatchStepView::Send { task: out, .. } => post.queue.add(
                post.delayed.to_multiset(),
            ).insert(out) == pre.queue.add(pre.delayed.to_multiset()).insert(task),
            DispatchStepView::Finished(accepted) => {
                &&& accepted
                &&& post.queue.len() == 0
                &&& post.queue.add(post.delayed.to_multiset()) == pre.queue.add(
                    pre.delayed.to_multiset(),
                ).insert(task)
            },
        },
        post.pending == (pre.pending + 1) % (usize::MAX + 1),
        post.workers == pre.workers,
        post.rr_index == pre.rr_index,
        post.strategy == pre.strategy,
{
    broadcast use {
        vstd::seq_lib::group_to_multiset_ensures,
        vstd::multiset::group_multiset_axioms,
        vstd::multiset::group_multiset_properties,
    };

    law_counting_up_and_down(pre.pending);
    let counted = SchedulerView { pending: one_more(pre.pending), ..pre };
    let now = choose|now: Timestamp| #[trigger]
        now.clock_reading() && queues_flushed(counted.enqueued(task, now), post, step);
    let queued = counted.enqueued(task, now);
    law_flush_loses_nothing(queued, post, step);
    assert(queued.queue.add(queued.delayed.to_multiset()) =~= pre.queue.add(
        pre.delayed.to_multiset(),
    ).insert(task));
}

/// No delayed task leaves early: what a flush sends or puts into the queue was
/// in the queue, or was delayed and the clock has shown that it is due.
pub proof fn law_no_delayed_task_leaves_early(
    pre: SchedulerView,
    post: SchedulerView,
    step: DispatchStepView,
    t: TaskView,
)
    requires
        queues_flushed(pre, post, step),
        post.queue.contains(t) || (step matches DispatchStepView::Send { task, .. } && task == t),
    ensures
        pre.queue.contains(t) || (pre.delayed.contains(t) && exists|now: Timestamp| #[trigger]
            now.clock_reading() && t.due(now)),
{
    broadcast use {
        vstd::seq_lib::group_to_multiset_ensures,
        vstd::multiset::group_multiset_axioms,
        vstd::multiset::group_multiset_properties,
    };

    let mid = choose|mid: SchedulerView| #[trigger]
        flushed_by_clock(pre, mid) && next_sent_by_reading(mid, post, step);
    let (now, looks) = choose|now: Timestamp, looks: Seq<Timestamp>|
        {
            &&& now.clock_reading()
            &&& clock_readings(looks) && looks.len() == pre.delayed.len()
            &&& mid == #[trigger] pre.flushed(now, looks)
        };
    let rooms = choose|rooms: Seq<usize>| #[trigger]
        rooms_reading(mid.workers, rooms) && next_sent(mid, rooms, post, step);
    law_one_task_leaves_the_queue(mid, rooms, post, step);
    assert(mid.queue.contains(t));
    if !pre.queue.contains(t) {
        let out = released(pre.delayed, now, looks);
        assert(out.to_multiset().contains(t));
        assert(out.contains(t));
        let i = lemma_released_was_due(pre.delayed, now, looks, t);
        assert(pre.delayed.contains(t));
        assert(looks[i].clock_reading());
    }
}

pub(crate) proof fn lemma_released_was_due(
    delayed: Seq<TaskView>,
    now: Timestamp,
    looks: Seq<Timestamp>,
    t: TaskView,
) -> (i: int)
    requires
        looks.len() == delayed.len(),
        released(delayed, now, looks).contains(t),
    ensures
        0 <= i < delayed.len(),
        delayed[i] == t,
        t.due(now) || t.due(looks[i]),
    decreases delayed.len(),
{
    let all = released(delayed, now, looks);
    let k = choose|k: int| 0 <= k < all.len() && all[k] == t;
    let rest = released(delayed.drop_last(), now, looks.drop_last());
    if k < rest.len() {
        assert(rest[k] == t);
        lemma_released_was_due(delayed.drop_last(), now, looks.drop_last(), t)
    } else {
        delayed.len() - 1
    }
}

/// No delayed task is held back that is due: what keeps waiting after a flush
/// was waiting before, and the clock has shown that it is not due.
pub proof fn law_no_due_task_is_held_back(
    pre: SchedulerView,
    post: SchedulerView,
    step: DispatchStepView,
    t: TaskView,
)
    requires
        queues_flushed(pre, post, step),
        post.delayed.contains(t),
    ensures
        pre.delayed.contains(t),
        exists|now: Timestamp| #[trigger] now.clock_reading() && !t.due(now),
{
    let mid = choose|mid: SchedulerView| #[trigger]
        flushed_by_clock(pre, mid) && next_sent_by_reading(mid, post, step);
    let (now, looks) = choose|now: Timestamp, looks: Seq<Timestamp>|
        {
            &&& now.clock_reading()
            &&& clock_readings(looks) && looks.len() == pre.delayed.len()
            &&& mid == #[trigger] pre.flushed(now, looks)
        };
    let i = lemma_held_back_was_not_due(pre.delayed, now, looks, t);
    assert(now.clock_reading() && !t.due(now));
}

pub(crate) proof fn lemma_held_back_was_not_due(
    delayed: Seq<TaskView>,
    now: Timestamp,
    looks: Seq<Timestamp>,
    t: TaskView,
) -> (i: int)
    requires
        looks.len() == delayed.len(),
        held_back(delayed, now, looks).contains(t),
    ensures
        0 <= i < delayed.len(),
        delayed[i] == t,
        !t.due(now) && !t.due(looks[i]),
    decreases delayed.len(),
{
    let all = held_back(delayed, now, looks);
    let k = choose|k: int| 0 <= k < all.len() && all[k] == t;
    let rest = held_back(delayed.drop_last(), now, looks.drop_last());
    if k < rest.len() {
        assert(rest[k] == t);
        lemma_held_back_was_not_due(delayed.drop_last(), now, looks.drop_last(), t)
    } else {
        delayed.len() - 1
    }
}

/// A dispatch with delays lets no task through before its time: what it sends or
/// puts into the queue was in the queue, or the clock has shown that it is due.
/// A task whose time the clock has not shown yet waits.
pub proof fn law_dispatch_holds_tasks_until_their_time(
    pre: SchedulerView,
    task: TaskView,
    post: SchedulerView,
    step: DispatchStepView,
    t: TaskView,
)
    requires
        pre.strategy == ScheduleStrategy::DelayedQueue,
        dispatched(pre, task, post, step),
    ensures
        post.queue.contains(t) || (step matches DispatchStepView::Send { task: out, .. } && out
            == t) ==> pre.queue.contains(t) || ((pre.delayed.contains(t) || t == task)
            && exists|now: Timestamp| #[trigger] now.clock_reading() && t.due(now)),
        (forall|now: Timestamp| #[trigger] now.clock_reading() ==> !task.due(now))
            ==> post.delayed.len() > 0 && post.delayed.last() == task,
{
    broadcast use {
        vstd::seq_lib::group_to_multiset_ensures,
        vstd::multiset::group_multiset_axioms,
        vstd::multiset::group_multiset_properties,
    };

    let counted = SchedulerView { pending: one_more(pre.pending), ..pre };
    let now = choose|now: Timestamp| #[trigger]
        now.clock_reading() && queues_flushed(counted.enqueued(task, now), post, step);
    let queued = counted.enqueued(task, now);
    if post.queue.contains(t) || (step matches DispatchStepView::Send { task: out, .. } && out
        == t) {
        law_no_delayed_task_leaves_early(queued, post, step, t);
        if queued.delayed.contains(t) && !pre.delayed.contains(t) {
            let k = choose|k: int| 0 <= k < queued.delayed.len() && queued.delayed[k] == t;
            assert(queued.delayed == pre.delayed || queued.delayed == pre.delayed.push(task));
            if t != task {
                assert(pre.delayed[k] == t);
            }
        }
    }
    if forall|now: Timestamp| #[trigger] now.clock_reading() ==> !task.due(now) {
        assert(!task.due(now));
        assert(queued.delayed == pre.delayed.push(task));
        let mid = choose|mid: SchedulerView| #[trigger]
            flushed_by_clock(queued, mid) && next_sent_by_reading(mid, post, step);
        let (at, looks) = choose|at: Timestamp, looks: Seq<Timestamp>|
            {
                &&& at.clock_reading()
                &&& clock_readings(looks) && looks.len() == queued.delayed.len()
                &&& mid == #[trigger] queued.flushed(at, looks)
            };
        let last = looks[looks.len() - 1];
        assert(last.clock_reading());
        assert(looks =~= looks.drop_last().push(last));
        law_flush_goes_through_all(pre.delayed, task, at, looks.drop_last(), last);
        assert(mid.delayed.last() == task);
    }
}

/// What follows on a send. A dispatch by turn or by load is over, well or ill
/// as the delivery was, and one ill is not pending. By queues the next task
/// follows on a delivery; a failure ends the dispatch and changes nothing.
pub proof fn law_delivery_decides_what_follows(
    pre: SchedulerView,
    delivered: bool,
    post: SchedulerView,
    step: DispatchStepView,
)
    requires
        sent(pre, delivered, post, step),
    ensures
        pre.strategy == ScheduleStrategy::RoundRobin || pre.strategy
            == ScheduleStrategy::LeastLoaded ==> {
            &&& step == DispatchStepView::Finished(delivered)
            &&& delivered ==> post == pre
            &&& !delivered ==> post == (SchedulerView { pending: one_less(pre.pending), ..pre })
        },
        pre.strategy == ScheduleStrategy::Priority || pre.strategy
            == ScheduleStrategy::DelayedQueue ==> {
            &&& delivered ==> next_sent_by_reading(pre, post, step)
            &&& !delivered ==> post == pre && step == DispatchStepView::Finished(true)
        },
{
}

// Growing and shrinking.

/// How the pool scales, on the numbers. With more tasks than the threshold and
/// fewer workers than allowed it grows: to one worker for each full threshold of
/// tasks, as far as allowed, and by one at least. Without tasks, with more than
/// the fewest workers, and idle for the timeout, it shrinks to the fewest. Else
/// it holds.
pub proof fn law_scaling_on_the_numbers(
    config: PoolConfig,
    pending: usize,
    workers: usize,
    idle: nat,
)
    requires
        config.scale_up_threshold > 0,
    ensures
        ({
            let decision = scale_rule(config, pending, workers, idle);
            let threshold = config.scale_up_threshold as int;
            let up = pending > threshold && workers < config.max_workers;
            let down = pending == 0 && workers > config.min_workers && idle
                >= config.idle_timeout_secs * 1_000_000_000;
            &&& decision is Up <==> up
            &&& decision is Down <==> down
            &&& decision is Hold <==> !up && !down
            &&& decision matches ScaleDecision::Down(count) ==> count == workers
                - config.min_workers
            &&& decision matches ScaleDecision::Up(count) ==> {
                &&& count >= 1
                &&& workers + count <= config.max_workers
                &&& workers + count == config.max_workers || workers + count >= pending as int
                    / threshold
                &&& workers + count == config.max_workers || (workers + count + 1) * threshold
                    > pending
                &&& count == 1 || (workers + count) * threshold <= pending
            }
        }),
{
    let t = config.scale_up_threshold as int;
    let p = pending as int;
    let q = p / t;
    vstd::arithmetic::div_mod::lemma_fundamental_div_mod(p, t);
    vstd::arithmetic::div_mod::lemma_mod_bound(p, t);
    if let ScaleDecision::Up(count) = scale_rule(config, pending, workers, idle) {
        let n = workers + count;
        assert(n >= q ==> (n + 1) * t > p) by (nonlinear_arith)
            requires
                p == t * q + p % t,
                0 <= p % t < t,
                t > 0,
        ;
        assert(n <= q ==> n * t <= p) by (nonlinear_arith)
            requires
                p == t * q + p % t,
                0 <= p % t,
                t > 0,
        ;
    }
}

/// One look at the load acts on the tasks pending and waiting, the workers there
/// are and the time since the last activity. A growing pool hands out workers
/// with the ids that are next, each with a channel of its own for 256 tasks, to
/// one worker for each full threshold of tasks as far as allowed. A shrinking
/// one removes the workers registered last. Nothing else changes.
pub proof fn law_scale_check_on_the_numbers(
    pre: PoolView,
    now: nat,
    post: PoolView,
    step: ScaleStep,
)
    requires
        scaled(pre, now, post, step),
        !pre.shutting_down,
        pre.config.scale_up_threshold > 0,
        pre.scheduler.workers.len() <= usize::MAX,
        pre.scheduler.pending + pre.scheduler.queue.len() + pre.scheduler.delayed.len()
            <= usize::MAX,
    ensures
        ({
            let load = pre.scheduler.pending + pre.scheduler.queue.len()
                + pre.scheduler.delayed.len();
            let workers = pre.scheduler.workers.len() as int;
            let threshold = pre.config.scale_up_threshold as int;
            &&& step is Spawn <==> load > threshold && workers < pre.config.max_workers
            &&& step matches ScaleStep::Spawn(new) ==> {
                let after = workers + new@.len();
                &&& new@.len() >= 1
                &&& after <= pre.config.max_workers
                &&& after == pre.config.max_workers || (after + 1) * threshold > load
                &&& new@.len() == 1 || after * threshold <= load
                &&& fresh_workers(new@, pre.next_worker_id)
                &&& post == (PoolView { next_worker_id: post.next_worker_id, ..pre })
            }
            &&& step is Removed <==> load == 0 && workers > pre.config.min_workers && (now
                - pre.last_activity >= pre.config.idle_timeout_secs * 1_000_000_000
                || pre.config.idle_timeout_secs == 0)
            &&& step matches ScaleStep::Removed(ids) ==> {
                &&& ids@.len() == workers - pre.config.min_workers
                &&& forall|i: int|
                    0 <= i < ids@.len() ==> #[trigger] ids@[i] == pre.scheduler.workers[workers - 1
                        - i].id
                &&& post == (PoolView {
                    scheduler: SchedulerView {
                        workers: post.scheduler.workers,
                        ..pre.scheduler
                    },
                    ..pre
                })
                &&& forall|w: WorkerSlot| #[trigger]
                    post.scheduler.workers.contains(w) <==> pre.scheduler.workers.contains(w)
                        && !ids@.contains(w.id)
            }
            &&& step is Hold ==> post == pre
            &&& !(step is Stop)
        }),
{
    law_scaling_on_the_numbers(
        pre.config,
        pre.load() as usize,
        pre.scheduler.workers.len() as usize,
        pre.idle_for(now),
    );
    if let ScaleStep::Removed(ids) = step {
        assert forall|w: WorkerSlot| #[trigger]
            post.scheduler.workers.contains(w) <==> pre.scheduler.workers.contains(w)
                && !ids@.contains(w.id) by {
            law_removing_many_removes_just_these(pre.scheduler.workers, ids@, w);
        }
    }
}

/// A pool that shuts down looks at its load no more.
pub proof fn law_no_scaling_while_shutting_down(
    pre: PoolView,
    now: nat,
    post: PoolView,
    step: ScaleStep,
)
    requires
        scaled(pre, now, post, step),
        pre.shutting_down,
    ensures
        step is Stop,
        post == pre,
{
}

/// New workers each have the id that follows on that of the one before, and the
/// two ends of a channel of their own for 256 tasks.
pub proof fn law_new_workers_are_numbered_and_connected(
    workers: Seq<NewWorker>,
    next: usize,
    i: int,
)
    requires
        fresh_workers(workers, next),
        0 <= i < workers.len(),
        next + workers.len() <= usize::MAX,
    ensures
        workers[i].slot.id == next + i,
        channel_limit(workers[i].slot.tx) == 256,
        connected(workers[i].slot.tx, workers[i].rx),
{
    lemma_id_after(next, i as nat);
}

/// What the pool has before it is what is pending and what waits; it can be
/// measured where that fits a number and a pool that is to grow has a threshold;
/// there is reason to flush where a task waits and a worker is there.
pub proof fn law_load_of_the_pool(p: PoolView, now: nat)
    requires
        p.scheduler.workers.len() <= usize::MAX,
    ensures
        p.load() == p.scheduler.pending + p.scheduler.queue.len() + p.scheduler.delayed.len(),
        p.last_activity <= now ==> p.idle_for(now) == now - p.last_activity,
        now < p.last_activity ==> p.idle_for(now) == 0,
        p.scalable() <==> p.shutting_down || (p.load() <= usize::MAX && (p.config.scale_up_threshold
            > 0 || p.load() == 0 || p.scheduler.workers.len() >= p.config.max_workers)),
        p.flushable() <==> p.scheduler.workers.len() > 0 && (p.scheduler.queue.len() > 0
            || p.scheduler.delayed.len() > 0),
{
}

// The pool.

/// A pool is made open and idle, with channels for as many tasks as configured
/// and dead letters for as many.
pub proof fn law_new_pool_is_open_and_idle(config: PoolConfig, now: nat, p: PoolView)
    requires
        new_pool(config, now, p),
    ensures
        p.config == config,
        p.task_tx is Some,
        p.task_rx is Some,
        channel_limit(p.task_tx->0) == config.max_queue_size,
        connected(p.task_tx->0, p.task_rx->0),
        p.scheduler.strategy == config.schedule_strategy,
        p.scheduler.workers.len() == 0,
        p.scheduler.queue.len() == 0,
        p.scheduler.delayed.len() == 0,
        p.scheduler.pending == 0,
        p.scheduler.rr_index == 0,
        p.counters.total_submitted == 0,
        p.counters.total_completed == 0,
        p.counters.total_failed == 0,
        p.counters.total_panicked == 0,
        p.counters.total_elapsed_us == 0,
        p.dead_letter.entries.len() == 0,
        p.dead_letter.max_size == config.max_queue_size,
        !p.shutting_down,
        p.next_worker_id == 0,
        p.active_workers == 0,
        p.last_activity == now,
{
    broadcast use vstd::multiset::group_multiset_axioms;

}

/// The start hands out the receiving end that the pool was made with, and the
/// fewest workers. It can be had once, and changes nothing else.
pub proof fn law_start_hands_out_the_fewest_workers(
    pre: PoolView,
    workers: Seq<NewWorker>,
    task_rx: Receiver<Task>,
    post: PoolView,
)
    requires
        started(pre, workers, task_rx, post),
        pre.next_worker_id + workers.len() <= usize::MAX,
    ensures
        pre.task_rx == Some(task_rx),
        post.task_rx is None,
        workers.len() == pre.config.min_workers,
        fresh_workers(workers, pre.next_worker_id),
        post.next_worker_id == pre.next_worker_id + workers.len(),
        post == (PoolView { task_rx: None, next_worker_id: post.next_worker_id, ..pre }),
{
    lemma_id_after(pre.next_worker_id, workers.len());
}

/// The end of a task is booked in the counters, the dead letters, the count of
/// pending tasks and the time of the last activity, and nowhere else.
pub proof fn law_end_is_booked_everywhere(
    pre: PoolView,
    result: TaskResultView,
    now: nat,
    failed_at: Timestamp,
)
    ensures
        ({
            let post = pre.after_task(result, now, failed_at);
            &&& post.counters == counted(pre.counters, result)
            &&& post.dead_letter == buried(pre.dead_letter, result, failed_at)
            &&& post.last_activity == now
            &&& pre.scheduler.pending > 0 ==> post.scheduler.pending == pre.scheduler.pending - 1
            &&& post.scheduler == (SchedulerView {
                pending: post.scheduler.pending,
                ..pre.scheduler
            })
            &&& post.config == pre.config
            &&& post.task_tx == pre.task_tx
            &&& post.task_rx == pre.task_rx
            &&& post.shutting_down == pre.shutting_down
            &&& post.next_worker_id == pre.next_worker_id
            &&& post.active_workers == pre.active_workers
        }),
{
}

/// A shutdown closes the pool and lets go of the workers and the waiting tasks;
/// the counts, the dead letters and the workers that still run stay.
pub proof fn law_shutdown_closes_the_pool(pre: PoolView)
    ensures
        pre.shut().task_tx is None,
        pre.shut().shutting_down,
        pre.shut().scheduler.workers.len() == 0,
        pre.shut().scheduler.queue.len() == 0,
        pre.shut().scheduler.delayed.len() == 0,
        pre.shut().scheduler.rr_index == 0,
        pre.shut().scheduler.pending == pre.scheduler.pending,
        pre.shut().scheduler.strategy == pre.config.schedule_strategy,
        pre.shut().config == pre.config,
        pre.shut().task_rx == pre.task_rx,
        pre.shut().counters == pre.counters,
        pre.shut().dead_letter == pre.dead_letter,
        pre.shut().next_worker_id == pre.next_worker_id,
        pre.shut().active_workers == pre.active_workers,
        pre.shut().last_activity == pre.last_activity,
{
    broadcast use vstd::multiset::group_multiset_axioms;

}

/// An offer that was taken is accepted; one that met a full channel is refused
/// for that, one that met a closed channel because the pool shuts down.
pub proof fn law_offer_is_answered_by_its_outcome(outcome: Offer)
    ensures
        outcome == Offer::Sent <==> offer_answered(outcome) is Ok,
        outcome == Offer::Full <==> offer_answered(outcome) == Err::<(), SubmitError>(
            SubmitError::QueueFull,
        ),
        outcome == Offer::Closed <==> offer_answered(outcome) == Err::<(), SubmitError>(
            SubmitError::ShuttingDown,
        ),
{
}

} // verus!
