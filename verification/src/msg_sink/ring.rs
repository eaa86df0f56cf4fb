//! The ring of log files as a mathematical object, and what the rotating
//! sink does to it.
//!
//! A directory is a map from generation index to the bytes of the file.
//! [`apply`] says what a file operation does to a directory, and
//! [`outcome_on`] what a host reports that works on that directory and
//! never fails for reasons of its own. [`drain`] lets a sink work against
//! such a host until it is at rest. The laws below are stated of `drain`.

use crate::msg_sink::local_file::FileOp;
use crate::msg_sink::local_file::IoOutcome;
use crate::msg_sink::local_file::LoggingEventView;
use crate::msg_sink::local_file::LoggingState;
use crate::msg_sink::local_file::SinkModel;
use crate::msg_sink::local_file::Step;
use vstd::prelude::*;

verus! {

/// The byte that ends every line.
pub const NEWLINE: u8 = 0x0a;

/// A sink together with the directory it works on.
pub ghost struct World {
    pub sink: SinkModel,
    pub disk: Map<u32, Seq<u8>>,
}

/// What a file holds after a line was appended to it.
pub open spec fn with_line(file: Seq<u8>, line: Seq<u8>) -> Seq<u8> {
    file + line.push(NEWLINE)
}

/// The directory after a file operation that succeeded. `line` is what an
/// append writes before the newline.
pub open spec fn apply(disk: Map<u32, Seq<u8>>, op: FileOp, line: Seq<u8>) -> Map<u32, Seq<u8>> {
    match op {
        FileOp::Probe { index } => disk,
        FileOp::OpenExisting { index } => disk,
        FileOp::Create { index } => if disk.contains_key(index) {
            disk
        } else {
            disk.insert(index, Seq::empty())
        },
        FileOp::Remove { index } => disk.remove(index),
        FileOp::Rename { from, to } => disk.remove(from).insert(to, disk[from]),
        FileOp::Append { index } => disk.insert(index, with_line(disk[index], line)),
        FileOp::Flush { index } => disk,
    }
}

/// What a host reports of an operation on the directory when nothing fails
/// but what the directory itself rules out: a file that is missing cannot
/// be opened without creating it, removed, renamed or appended to.
pub open spec fn outcome_on(disk: Map<u32, Seq<u8>>, op: FileOp) -> IoOutcome {
    match op {
        FileOp::Probe { index } => IoOutcome { ok: disk.contains_key(index), size: 0 },
        FileOp::OpenExisting { index } => IoOutcome {
            ok: disk.contains_key(index),
            size: disk[index].len() as u64,
        },
        FileOp::Create { index } => IoOutcome { ok: true, size: 0 },
        FileOp::Remove { index } => IoOutcome { ok: disk.contains_key(index), size: 0 },
        FileOp::Rename { from, to } => IoOutcome { ok: disk.contains_key(from), size: 0 },
        FileOp::Append { index } => IoOutcome { ok: disk.contains_key(index), size: 0 },
        FileOp::Flush { index } => IoOutcome { ok: true, size: 0 },
    }
}

/// One operation of the sink against such a host: the host performs what
/// the sink awaits, the directory changes if the operation succeeded, and
/// the sink takes the outcome.
pub open spec fn step(world: World) -> World {
    match world.sink.awaited() {
        None => world,
        Some(op) => {
            let outcome = outcome_on(world.disk, op);
            World {
                sink: world.sink.advance(outcome),
                disk: if outcome.ok {
                    apply(world.disk, op, world.sink.line)
                } else {
                    world.disk
                },
            }
        },
    }
}

/// The sink works against the host until it is at rest.
pub open spec fn drain(world: World) -> World
    decreases world.sink.steps_left(),
{
    if world.sink.wf() && world.sink.step != Step::Idle {
        drain(step(world))
    } else {
        world
    }
}

/// An event, and the work it calls for, carried out to the end.
pub open spec fn handle(world: World, event: LoggingEventView) -> World {
    drain(World { sink: world.sink.begin(event), disk: world.disk })
}

/// The directory holds exactly the generations `0` to `top`, and each is
/// small enough for its size to be counted.
pub open spec fn ring_up_to(disk: Map<u32, Seq<u8>>, top: u32) -> bool {
    &&& forall|i: u32| #[trigger] disk.contains_key(i) <==> i <= top
    &&& forall|i: u32| i <= top ==> (#[trigger] disk[i]).len() <= u64::MAX
}

/// A running sink and a directory that agree: the directory holds the
/// generations up to the sink's, and the sink knows the size of its own.
pub open spec fn in_step(world: World) -> bool {
    &&& world.sink.wf()
    &&& world.sink.step == Step::Idle
    &&& world.sink.state == LoggingState::Running
    &&& ring_up_to(world.disk, world.sink.number)
    &&& world.sink.size == world.disk[world.sink.number].len()
}

/// The ring after its generations moved down by one: what was generation
/// `i + 1` is generation `i`, the old generation 0 is gone, and the index
/// `top` is free.
pub open spec fn shifted(disk: Map<u32, Seq<u8>>, top: u32) -> Map<u32, Seq<u8>> {
    Map::new(|i: u32| i < top, |i: u32| disk[(i + 1) as u32])
}

/// The worlds in which the sink is at rest are the worlds that `drain`
/// leaves alone.
pub proof fn lemma_drain_at_rest(world: World)
    requires
        world.sink.step == Step::Idle,
    ensures
        drain(world) == world,
{
}

/// While the sink awaits an operation, running is one step and then
/// running on.
pub proof fn lemma_drain_unfold(world: World)
    requires
        world.sink.wf(),
        world.sink.step != Step::Idle,
    ensures
        drain(world) == drain(step(world)),
{
}

/// A line that fits is appended to the current generation, and nothing
/// else in the directory changes.
pub proof fn lemma_append_in_place(world: World, line: Seq<u8>)
    requires
        in_step(world),
        !world.sink.overflows(line.len()),
    ensures
        handle(world, LoggingEventView::SendMessage(line)).disk == world.disk.insert(
            world.sink.number,
            with_line(world.disk[world.sink.number], line),
        ),
        handle(world, LoggingEventView::SendMessage(line)).sink.number == world.sink.number,
        handle(world, LoggingEventView::SendMessage(line)).sink.line == line,
        in_step(handle(world, LoggingEventView::SendMessage(line))),
{
    let number = world.sink.number;
    assert(world.disk.contains_key(number));
    let w0 = World { sink: world.sink.begin(LoggingEventView::SendMessage(line)), disk: world.disk };
    assert(w0.sink.step == Step::Writing);
    lemma_drain_unfold(w0);
    let w1 = step(w0);
    assert(w1.sink.step == Step::Flushing { failed: false });
    lemma_drain_unfold(w1);
    let w2 = step(w1);
    lemma_drain_at_rest(w2);
    assert(ring_up_to(w2.disk, number)) by {
        assert forall|i: u32| #[trigger] w2.disk.contains_key(i) <==> i <= number by {
            assert(world.disk.contains_key(i) <==> i <= number);
        }
        assert forall|i: u32| i <= number implies (#[trigger] w2.disk[i]).len() <= u64::MAX by {
            assert(world.disk[i].len() <= u64::MAX);
        }
    }
}

/// Below the last index, a line that would bring the current generation
/// to the cap opens the next generation and is its first line. Every
/// generation written before keeps what it held.
pub proof fn lemma_rotate_to_next(world: World, line: Seq<u8>)
    requires
        in_step(world),
        world.sink.overflows(line.len()),
        world.sink.number < world.sink.count - 1,
        line.len() < u64::MAX,
    ensures
        handle(world, LoggingEventView::SendMessage(line)).disk == world.disk.insert(
            (world.sink.number + 1) as u32,
            with_line(Seq::empty(), line),
        ),
        handle(world, LoggingEventView::SendMessage(line)).sink.number == world.sink.number + 1,
        handle(world, LoggingEventView::SendMessage(line)).sink.line == line,
        in_step(handle(world, LoggingEventView::SendMessage(line))),
{
    let next = (world.sink.number + 1) as u32;
    assert(!world.disk.contains_key(next));
    let w0 = World { sink: world.sink.begin(LoggingEventView::SendMessage(line)), disk: world.disk };
    assert(w0.sink.step == Step::Reopening { failed: false });
    lemma_drain_unfold(w0);
    let w1 = step(w0);
    assert(w1.disk == world.disk.insert(next, Seq::empty()));
    assert(w1.sink.step == Step::Writing);
    lemma_drain_unfold(w1);
    let w2 = step(w1);
    assert(w2.sink.step == Step::Flushing { failed: false });
    assert(w2.disk =~= world.disk.insert(next, with_line(Seq::empty(), line)));
    lemma_drain_unfold(w2);
    let w3 = step(w2);
    lemma_drain_at_rest(w3);
    assert(ring_up_to(w3.disk, next)) by {
        assert forall|i: u32| #[trigger] w3.disk.contains_key(i) <==> i <= next by {
            assert(world.disk.contains_key(i) <==> i <= world.sink.number);
        }
        assert forall|i: u32| i <= next implies (#[trigger] w3.disk[i]).len() <= u64::MAX by {
            if i < next {
                assert(world.disk[i].len() <= u64::MAX);
            }
        }
    }
}

/// The renames of a rotation at the last index, from the one that moves
/// generation `from` on: once they are done, the ring is the one it was,
/// shifted down, and the sink is about to open the last generation.
proof fn lemma_renames(world: World, before: Map<u32, Seq<u8>>, from: u32)
    requires
        world.sink.wf(),
        world.sink.step == (Step::Renaming { from }),
        forall|i: u32|
            #[trigger] world.disk.contains_key(i) <==> i <= world.sink.number && i != from - 1,
        forall|i: u32| i < from - 1 ==> #[trigger] world.disk[i] == before[(i + 1) as u32],
        forall|i: u32| from <= i <= world.sink.number ==> #[trigger] world.disk[i] == before[i],
    ensures
        drain(world) == drain(
            World {
                sink: world.sink.then_step(Step::Reopening { failed: false }),
                disk: shifted(before, world.sink.number),
            },
        ),
    decreases world.sink.count - from,
{
    let top = world.sink.number;
    lemma_drain_unfold(world);
    let next = step(world);
    assert(world.disk.contains_key(from));
    assert(next.disk == world.disk.remove(from).insert((from - 1) as u32, world.disk[from]));
    if from == top {
        assert(next.disk =~= shifted(before, top)) by {
            assert forall|i: u32| next.disk.contains_key(i) <==> i < top by {
                assert(world.disk.contains_key(i) <==> i <= top && i != from - 1);
            }
            assert forall|i: u32| i < top implies next.disk[i] == before[(i + 1) as u32] by {
                if i < from - 1 {
                    assert(world.disk[i] == before[(i + 1) as u32]);
                } else {
                    assert(world.disk[from] == before[from]);
                }
            }
        }
    } else {
        assert forall|i: u32| #[trigger]
            next.disk.contains_key(i) <==> i <= top && i != (from + 1) - 1 by {
            assert(world.disk.contains_key(i) <==> i <= top && i != from - 1);
        }
        assert forall|i: u32| i < (from + 1) - 1 implies #[trigger] next.disk[i] == before[(i
            + 1) as u32] by {
            if i < from - 1 {
                assert(world.disk[i] == before[(i + 1) as u32]);
            } else {
                assert(world.disk[from] == before[from]);
            }
        }
        assert forall|i: u32| from + 1 <= i <= top implies #[trigger] next.disk[i]
            == before[i] by {
            assert(world.disk[i] == before[i]);
        }
        lemma_renames(next, before, (from + 1) as u32);
    }
}

/// At the last index, a line that would bring the current generation to
/// the cap turns the ring: the oldest generation is discarded, every other
/// generation moves down by one with its content untouched, and the line
/// is the first of a new last generation.
pub proof fn lemma_rotate_at_end(world: World, line: Seq<u8>)
    requires
        in_step(world),
        world.sink.overflows(line.len()),
        world.sink.number == world.sink.count - 1,
        line.len() < u64::MAX,
    ensures
        handle(world, LoggingEventView::SendMessage(line)).disk == shifted(
            world.disk,
            world.sink.number,
        ).insert(world.sink.number, with_line(Seq::empty(), line)),
        handle(world, LoggingEventView::SendMessage(line)).sink.number == world.sink.number,
        handle(world, LoggingEventView::SendMessage(line)).sink.line == line,
        in_step(handle(world, LoggingEventView::SendMessage(line))),
{
    let top = world.sink.number;
    let w0 = World { sink: world.sink.begin(LoggingEventView::SendMessage(line)), disk: world.disk };
    assert(w0.sink.step == Step::Removing);
    assert(world.disk.contains_key(0));
    lemma_drain_unfold(w0);
    let w1 = step(w0);
    assert(w1.disk == world.disk.remove(0));
    let opening = World {
        sink: w0.sink.then_step(Step::Reopening { failed: false }),
        disk: shifted(world.disk, top),
    };
    if world.sink.count == 1 {
        assert(w1.disk =~= shifted(world.disk, top)) by {
            assert forall|i: u32| w1.disk.contains_key(i) <==> i < top by {
                assert(world.disk.contains_key(i) <==> i <= top);
            }
        }
        assert(w1 == opening);
    } else {
        assert forall|i: u32| #[trigger] w1.disk.contains_key(i) <==> i <= top && i != 1 - 1 by {
            assert(world.disk.contains_key(i) <==> i <= top);
        }
        lemma_renames(w1, world.disk, 1);
        assert(w1.sink.then_step(Step::Reopening { failed: false }) == opening.sink);
    }
    assert(drain(w0) == drain(opening));
    lemma_drain_unfold(opening);
    let w2 = step(opening);
    assert(!opening.disk.contains_key(top));
    assert(w2.disk == opening.disk.insert(top, Seq::empty()));
    assert(w2.sink.step == Step::Writing);
    lemma_drain_unfold(w2);
    let w3 = step(w2);
    assert(w3.sink.step == Step::Flushing { failed: false });
    assert(w3.disk =~= opening.disk.insert(top, with_line(Seq::empty(), line)));
    lemma_drain_unfold(w3);
    let w4 = step(w3);
    lemma_drain_at_rest(w4);
    assert(ring_up_to(w4.disk, top)) by {
        assert forall|i: u32| #[trigger] w4.disk.contains_key(i) <==> i <= top by {}
        assert forall|i: u32| i <= top implies (#[trigger] w4.disk[i]).len() <= u64::MAX by {
            if i < top {
                assert(world.disk[(i + 1) as u32].len() <= u64::MAX);
            }
        }
    }
}

/// Whatever a sink is sent while it runs in step with its directory, the
/// directory afterwards holds generations inside the ring only, and from
/// index 0 up without a gap.
pub proof fn lemma_generations_bounded(world: World, line: Seq<u8>)
    requires
        in_step(world),
        line.len() < u64::MAX,
    ensures
        in_step(handle(world, LoggingEventView::SendMessage(line))),
        forall|i: u32|
            handle(world, LoggingEventView::SendMessage(line)).disk.contains_key(i) ==> i
                < world.sink.count,
        handle(world, LoggingEventView::SendMessage(line)).sink.count == world.sink.count,
        handle(world, LoggingEventView::SendMessage(line)).sink.cap == world.sink.cap,
{
    let after = handle(world, LoggingEventView::SendMessage(line));
    if !world.sink.overflows(line.len()) {
        lemma_append_in_place(world, line);
    } else if world.sink.number < world.sink.count - 1 {
        lemma_rotate_to_next(world, line);
    } else {
        lemma_rotate_at_end(world, line);
    }
    lemma_drain_keeps_limits(World { sink: world.sink.begin(LoggingEventView::SendMessage(line)), disk: world.disk });
    assert forall|i: u32| after.disk.contains_key(i) implies i < world.sink.count by {
        assert(after.disk.contains_key(i) <==> i <= after.sink.number);
    }
}

/// Running changes neither the number of generations nor the cap.
pub proof fn lemma_drain_keeps_limits(world: World)
    ensures
        drain(world).sink.count == world.sink.count,
        drain(world).sink.cap == world.sink.cap,
    decreases world.sink.steps_left(),
{
    if world.sink.wf() && world.sink.step != Step::Idle {
        lemma_drain_keeps_limits(step(world));
    }
}

/// After every line written, the generation that took it is below the cap,
/// or it holds that one line and nothing else: no generation exceeds the
/// cap by more than one line.
pub proof fn lemma_size_capped(world: World, line: Seq<u8>)
    requires
        in_step(world),
        line.len() < u64::MAX,
    ensures
        ({
            let after = handle(world, LoggingEventView::SendMessage(line));
            let file = after.disk[after.sink.number];
            file.len() < world.sink.cap || file == with_line(Seq::empty(), line)
        }),
{
    if !world.sink.overflows(line.len()) {
        lemma_append_in_place(world, line);
    } else if world.sink.number < world.sink.count - 1 {
        lemma_rotate_to_next(world, line);
    } else {
        lemma_rotate_at_end(world, line);
    }
}

/// Initialising opens the highest generation of the ring that exists,
/// whatever exists below it, takes its size, and leaves the directory as
/// it is. Where the directory holds the generations up to that one without
/// a gap, sink and directory are in step afterwards.
pub proof fn lemma_init_existing(world: World, top: u32)
    requires
        world.sink.wf(),
        world.sink.step == Step::Idle,
        world.sink.state == LoggingState::Starting,
        top < world.sink.count,
        world.disk.contains_key(top),
        world.disk[top].len() <= u64::MAX,
        forall|i: u32| top < i < world.sink.count ==> !world.disk.contains_key(i),
    ensures
        handle(world, LoggingEventView::Init).disk == world.disk,
        handle(world, LoggingEventView::Init).sink.state == LoggingState::Running,
        handle(world, LoggingEventView::Init).sink.step == Step::Idle,
        handle(world, LoggingEventView::Init).sink.wf(),
        handle(world, LoggingEventView::Init).sink.number == top,
        handle(world, LoggingEventView::Init).sink.size == world.disk[top].len(),
        ring_up_to(world.disk, top) ==> in_step(handle(world, LoggingEventView::Init)),
{
    let w0 = World { sink: world.sink.begin(LoggingEventView::Init), disk: world.disk };
    lemma_probe_existing(w0, (world.sink.count - 1) as u32, top);
}

/// Probing from `index` down over a directory whose highest generation at
/// or below `index` is `top`.
proof fn lemma_probe_existing(world: World, index: u32, top: u32)
    requires
        world.sink.wf(),
        world.sink.step == (Step::Probing { index }),
        top <= index,
        world.disk.contains_key(top),
        world.disk[top].len() <= u64::MAX,
        forall|i: u32| top < i <= index ==> !world.disk.contains_key(i),
    ensures
        drain(world).disk == world.disk,
        drain(world).sink.state == LoggingState::Running,
        drain(world).sink.step == Step::Idle,
        drain(world).sink.wf(),
        drain(world).sink.number == top,
        drain(world).sink.size == world.disk[top].len(),
    decreases index,
{
    lemma_drain_unfold(world);
    let w1 = step(world);
    if index == top {
        assert(w1.sink.step == Step::Opening { index });
        lemma_drain_unfold(w1);
        let w2 = step(w1);
        lemma_drain_at_rest(w2);
    } else {
        assert(!world.disk.contains_key(index));
        lemma_probe_existing(w1, (index - 1) as u32, top);
    }
}

/// Initialising over an empty directory creates generation 0 and nothing
/// else.
pub proof fn lemma_init_empty(world: World)
    requires
        world.sink.wf(),
        world.sink.step == Step::Idle,
        world.sink.state == LoggingState::Starting,
        world.disk == Map::<u32, Seq<u8>>::empty(),
    ensures
        handle(world, LoggingEventView::Init).disk == Map::<u32, Seq<u8>>::empty().insert(
            0,
            Seq::empty(),
        ),
        handle(world, LoggingEventView::Init).sink.number == 0,
        in_step(handle(world, LoggingEventView::Init)),
{
    let w0 = World { sink: world.sink.begin(LoggingEventView::Init), disk: world.disk };
    lemma_probe_empty(w0, (world.sink.count - 1) as u32);
}

/// Probing from `index` down over an empty directory.
proof fn lemma_probe_empty(world: World, index: u32)
    requires
        world.sink.wf(),
        world.sink.step == (Step::Probing { index }),
        world.disk == Map::<u32, Seq<u8>>::empty(),
    ensures
        drain(world).disk == Map::<u32, Seq<u8>>::empty().insert(0, Seq::empty()),
        drain(world).sink.number == 0,
        in_step(drain(world)),
    decreases index,
{
    lemma_drain_unfold(world);
    let w1 = step(world);
    if index == 0 {
        assert(w1.sink.step == Step::CreatingFirst);
        lemma_drain_unfold(w1);
        let w2 = step(w1);
        lemma_drain_at_rest(w2);
        assert(ring_up_to(w2.disk, 0)) by {
            assert forall|i: u32| #[trigger] w2.disk.contains_key(i) <==> i <= 0 by {}
        }
    } else {
        lemma_probe_empty(w1, (index - 1) as u32);
    }
}

/// Closing a running sink flushes its generation, changes no file and
/// leaves the sink stopped, with no file held and nothing written by a
/// later record.
pub proof fn lemma_close(world: World, later: LoggingEventView)
    requires
        in_step(world),
    ensures
        handle(world, LoggingEventView::Close).disk == world.disk,
        handle(world, LoggingEventView::Close).sink == world.sink.rest(LoggingState::Stopping),
        !handle(world, LoggingEventView::Close).sink.holds_file(),
        handle(handle(world, LoggingEventView::Close), later) == handle(
            world,
            LoggingEventView::Close,
        ),
{
    let w0 = World { sink: world.sink.begin(LoggingEventView::Close), disk: world.disk };
    assert(w0.sink.step == Step::Closing);
    lemma_drain_unfold(w0);
    lemma_drain_at_rest(step(w0));
}

/// A sink in the `Error` state stays there: it takes no event and asks for
/// nothing.
pub proof fn lemma_error_is_final(sink: SinkModel, event: LoggingEventView)
    requires
        sink.state == LoggingState::Error,
        sink.step == Step::Idle,
    ensures
        sink.begin(event) == sink,
        sink.awaited().is_none(),
        !sink.holds_file(),
{
}

/// Every operation that a sink asks for names generations of its ring
/// only.
pub proof fn lemma_ops_inside_ring(sink: SinkModel)
    requires
        sink.wf(),
    ensures
        match sink.awaited() {
            None => true,
            Some(FileOp::Probe { index }) => index < sink.count,
            Some(FileOp::OpenExisting { index }) => index < sink.count,
            Some(FileOp::Create { index }) => index < sink.count,
            Some(FileOp::Remove { index }) => index < sink.count,
            Some(FileOp::Rename { from, to }) => from < sink.count && to < sink.count,
            Some(FileOp::Append { index }) => index < sink.count,
            Some(FileOp::Flush { index }) => index < sink.count,
        },
{
}

/// The invariant of a sink survives every event that finds it at rest and
/// every outcome, and each outcome brings a waiting sink closer to rest.
pub proof fn lemma_sink_invariant(sink: SinkModel, event: LoggingEventView, outcome: IoOutcome)
    requires
        sink.wf(),
    ensures
        sink.step == Step::Idle ==> sink.begin(event).wf(),
        sink.advance(outcome).wf(),
        sink.step != Step::Idle ==> sink.advance(outcome).steps_left() < sink.steps_left(),
{
}

} // verus!
