//! What a whole operation looks like, and that the step function produces
//! it.
//!
//! [`trace`] is the sequence of writes that draws a buffer, [`script`] that
//! of a whole operation, [`drawn`] the cursor after drawing, and [`run`]
//! what a number of steps of a transfer come to while every write is
//! taken. The lemmas say that the steps hand out the script write by
//! write, and where the cursor stands when the channel rejects one of them.

use crate::command::{Command, WriteView};
use crate::transfer::{row_change, settle, step, Step, TransferView};
use crate::window::WindowView;
use vstd::arithmetic::div_mod::{
    lemma_basic_div, lemma_div_plus_one, lemma_mod_add_multiples_vanish, lemma_small_mod,
};
use vstd::prelude::*;

verus! {

/// The command writes that send `commands`, in order.
pub open spec fn command_writes(commands: Seq<Command>) -> Seq<WriteView> {
    Seq::new(commands.len(), |i: int| WriteView::Command(commands[i]))
}

/// The writes that draw `data` from the cursor of `window` on: a data write
/// with as many bytes as fit in the row, the commands that point the
/// controller at the next row if that filled the row, and then the same for
/// the bytes that are left, from the new cursor. A cursor with no room
/// before it takes no write at all; in a window that can be drawn to there
/// is none.
pub open spec fn trace(window: WindowView, data: Seq<u8>) -> Seq<WriteView>
    decreases data.len(),
{
    if data.len() == 0 || window.room() <= 0 {
        Seq::empty()
    } else {
        let count: int = window.chunk_len(data.len() as int);
        seq![WriteView::Data(data.take(count))] + command_writes(row_change(window, count))
            + trace(window.advance(count), data.skip(count))
    }
}

/// The writes that carry out an operation which sends `commands` and then
/// draws `data` from the cursor of `window` on.
pub open spec fn script(window: WindowView, commands: Seq<Command>, data: Seq<u8>) -> Seq<
    WriteView,
> {
    command_writes(commands) + trace(window, data)
}

/// The window after `len` bytes were drawn from its cursor on, row segment
/// by row segment.
pub open spec fn drawn(window: WindowView, len: nat) -> WindowView
    decreases len,
{
    if len == 0 || window.room() <= 0 {
        window
    } else {
        let count: int = window.chunk_len(len as int);
        drawn(window.advance(count), (len - count) as nat)
    }
}

/// The pixel bytes that a sequence of writes carries, in order.
pub open spec fn payload(writes: Seq<WriteView>) -> Seq<u8>
    decreases writes.len(),
{
    if writes.len() == 0 {
        Seq::empty()
    } else {
        writes[0].payload() + payload(writes.skip(1))
    }
}

/// What a number of steps of a transfer come to.
pub struct Run {
    /// The window and cursor after the last step.
    pub window: WindowView,
    /// The transfer after the last step.
    pub transfer: TransferView,
    /// The writes that the steps handed out, in order.
    pub writes: Seq<WriteView>,
}

/// Takes `steps` steps of `transfer` on `window`, each write being taken by
/// the controller before the next step.
pub open spec fn run(window: WindowView, transfer: TransferView, steps: nat) -> Run
    decreases steps,
{
    if steps == 0 {
        Run { window, transfer, writes: Seq::empty() }
    } else {
        let first: Step = step(window, transfer);
        let later: Run = run(first.window, first.transfer, (steps - 1) as nat);
        Run {
            window: later.window,
            transfer: later.transfer,
            writes: match first.write {
                Some(write) => seq![write] + later.writes,
                None => later.writes,
            },
        }
    }
}

/// The writes that a transfer has yet to hand out.
spec fn pending(window: WindowView, transfer: TransferView) -> Seq<WriteView> {
    script(
        settle(window, transfer).0,
        settle(window, transfer).1.commands,
        settle(window, transfer).1.data,
    )
}

proof fn lemma_payload_concat(a: Seq<WriteView>, b: Seq<WriteView>)
    ensures
        payload(a + b) == payload(a) + payload(b),
    decreases a.len(),
{
    if a.len() == 0 {
        assert(a + b =~= b);
        assert(payload(a) + payload(b) =~= payload(b));
    } else {
        assert((a + b).skip(1) =~= a.skip(1) + b);
        lemma_payload_concat(a.skip(1), b);
        assert((a + b)[0] == a[0]);
        assert(payload(a + b) =~= payload(a) + payload(b));
    }
}

proof fn lemma_payload_of_commands(commands: Seq<Command>)
    ensures
        payload(command_writes(commands)) == Seq::<u8>::empty(),
    decreases commands.len(),
{
    if commands.len() > 0 {
        assert(command_writes(commands).skip(1) =~= command_writes(commands.skip(1)));
        lemma_payload_of_commands(commands.skip(1));
    }
    assert(payload(command_writes(commands)) =~= Seq::<u8>::empty());
}

/// A step hands out the first of the pending writes and leaves the others
/// pending; with none pending it hands out none and the transfer is over.
proof fn lemma_step_takes_first_pending(window: WindowView, transfer: TransferView)
    requires
        window.wf(),
        transfer.wf(),
        transfer.fits(window),
    ensures
        ({
            let next: Step = step(window, transfer);
            let before: Seq<WriteView> = pending(window, transfer);
            let after: Seq<WriteView> = pending(next.window, next.transfer);
            &&& next.window.wf()
            &&& next.transfer.wf()
            &&& next.transfer.fits(next.window)
            &&& next.window == settle(window, transfer).0
            &&& before.len() == 0 ==> next.write is None && next.transfer == TransferView::done()
                && after.len() == 0
            &&& before.len() > 0 ==> next.write == Some(before[0]) && after == before.skip(1)
        }),
{
    let (settled, waiting) = settle(window, transfer);
    let next: Step = step(window, transfer);
    let before: Seq<WriteView> = pending(window, transfer);
    let after: Seq<WriteView> = pending(next.window, next.transfer);
    if transfer.phase is Chunk {
        window.lemma_advance_stays_inside(window.chunk_len(transfer.data.len() as int));
    }
    if waiting.commands.len() > 0 {
        assert(command_writes(waiting.commands.skip(1)) =~= command_writes(
            waiting.commands,
        ).skip(1));
        assert(after =~= before.skip(1));
    } else if waiting.data.len() > 0 {
        let count: int = settled.chunk_len(waiting.data.len() as int);
        assert(waiting.commands + row_change(settled, count) =~= row_change(settled, count));
        assert(after =~= before.skip(1));
    } else {
        assert(waiting.commands =~= Seq::<Command>::empty());
        assert(waiting.data =~= Seq::<u8>::empty());
    }
}

/// Steps hand out the pending writes one by one, as many as there are.
proof fn lemma_run_takes_pending(window: WindowView, transfer: TransferView, steps: nat)
    requires
        window.wf(),
        transfer.wf(),
        transfer.fits(window),
    ensures
        ({
            let before: Seq<WriteView> = pending(window, transfer);
            run(window, transfer, steps).writes == before.take(
                if steps <= before.len() {
                    steps as int
                } else {
                    before.len() as int
                },
            )
        }),
    decreases steps,
{
    let before: Seq<WriteView> = pending(window, transfer);
    if steps == 0 {
        assert(before.take(0) =~= Seq::<WriteView>::empty());
    } else {
        let first: Step = step(window, transfer);
        lemma_step_takes_first_pending(window, transfer);
        lemma_run_takes_pending(first.window, first.transfer, (steps - 1) as nat);
        let later: Run = run(first.window, first.transfer, (steps - 1) as nat);
        if before.len() == 0 {
            assert(later.writes =~= Seq::<WriteView>::empty());
            assert(before.take(0) =~= Seq::<WriteView>::empty());
        } else {
            let taken: int = if steps <= before.len() {
                steps as int
            } else {
                before.len() as int
            };
            assert(seq![before[0]] + before.skip(1).take(taken - 1) =~= before.take(taken));
        }
    }
}

/// After at least one step, and no more steps than there are writes
/// pending and one to see that none is left, the cursor stands where the
/// bytes of all writes but the last one handed out have taken it.
proof fn lemma_run_settles_taken_writes(window: WindowView, transfer: TransferView, steps: nat)
    requires
        window.wf(),
        transfer.wf(),
        transfer.fits(window),
        1 <= steps <= pending(window, transfer).len() + 1,
    ensures
        run(window, transfer, steps).window == drawn(
            settle(window, transfer).0,
            payload(pending(window, transfer).take(steps - 1)).len(),
        ),
    decreases steps,
{
    let (settled, waiting) = settle(window, transfer);
    let before: Seq<WriteView> = pending(window, transfer);
    let first: Step = step(window, transfer);
    lemma_step_takes_first_pending(window, transfer);
    if steps == 1 {
        assert(before.take(0) =~= Seq::<WriteView>::empty());
    } else {
        // The first step hands out `before[0]`; by induction the cursor ends
        // where the bytes of `tail`, the writes after it, take it from the
        // cursor settled after that step.
        lemma_run_settles_taken_writes(first.window, first.transfer, (steps - 1) as nat);
        let tail: Seq<WriteView> = pending(first.window, first.transfer).take(steps - 2);
        let more: nat = payload(tail).len();
        assert(before.take(steps - 1) =~= seq![before[0]] + tail);
        lemma_payload_concat(seq![before[0]], tail);
        assert(payload(seq![before[0]]) =~= before[0].payload()) by {
            reveal_with_fuel(payload, 2);
        }
        assert(payload(before.take(steps - 1)).len() == before[0].payload().len() + more);
        assert(run(window, transfer, steps).window == run(
            first.window,
            first.transfer,
            (steps - 1) as nat,
        ).window);
        if waiting.commands.len() == 0 {
            // `before[0]` is a data write of `count` bytes, on its way after
            // the step. Drawing `count + more` bytes starts with those
            // `count`: either they fill the row, or they are all there is
            // and nothing follows them.
            let count: int = settled.chunk_len(waiting.data.len() as int);
            assert(before[0].payload().len() == count);
            assert(settle(first.window, first.transfer).0 == settled.advance(count));
            if count < settled.room() {
                assert(waiting.data.skip(count).len() == 0);
                assert(before.len() == 1);
                assert(tail =~= Seq::<WriteView>::empty());
            }
            assert(drawn(settled, (count + more) as nat) == drawn(settled.advance(count), more));
        } else {
            assert(before[0].payload().len() == 0);
            assert(settle(first.window, first.transfer).0 == settled);
        }
    }
}

/// Once no write is pending, one more step ends the transfer, and steps
/// after that change nothing.
proof fn lemma_run_rests_when_done(window: WindowView, transfer: TransferView, steps: nat)
    requires
        window.wf(),
        transfer.wf(),
        transfer.fits(window),
        steps > pending(window, transfer).len(),
    ensures
        run(window, transfer, steps).transfer == TransferView::done(),
        run(window, transfer, steps).window == run(
            window,
            transfer,
            pending(window, transfer).len() + 1,
        ).window,
    decreases steps,
{
    let before: Seq<WriteView> = pending(window, transfer);
    let first: Step = step(window, transfer);
    lemma_step_takes_first_pending(window, transfer);
    if before.len() == 0 {
        assert(run(first.window, first.transfer, 0).window == first.window);
        if steps > 1 {
            lemma_run_rests_when_done(first.window, first.transfer, (steps - 1) as nat);
            assert(run(first.window, first.transfer, 1).window == first.window) by {
                reveal_with_fuel(run, 2);
            }
        }
    } else {
        lemma_run_rests_when_done(first.window, first.transfer, (steps - 1) as nat);
    }
}

/// The data writes of a transfer carry the buffer: every byte once, in the
/// order of the buffer.
pub proof fn lemma_trace_carries_data(window: WindowView, data: Seq<u8>)
    requires
        window.wf(),
        window.is_open(),
    ensures
        payload(trace(window, data)) == data,
    decreases data.len(),
{
    if data.len() == 0 {
        assert(payload(trace(window, data)) =~= data);
    } else {
        let count: int = window.chunk_len(data.len() as int);
        let head: Seq<WriteView> = seq![WriteView::Data(data.take(count))];
        let between: Seq<WriteView> = command_writes(row_change(window, count));
        let moved: WindowView = window.advance(count);
        window.lemma_advance_stays_inside(count);
        lemma_trace_carries_data(moved, data.skip(count));
        lemma_payload_concat(head + between, trace(moved, data.skip(count)));
        lemma_payload_concat(head, between);
        lemma_payload_of_commands(row_change(window, count));
        assert(payload(head) =~= data.take(count)) by {
            reveal_with_fuel(payload, 2);
        }
        assert(data.take(count) + Seq::<u8>::empty() + data.skip(count) =~= data);
    }
}

/// No data write of a transfer is empty, and none is longer than the window
/// is wide: a data write never goes past the right edge.
pub proof fn lemma_data_writes_fit_the_row(window: WindowView, data: Seq<u8>, i: int)
    requires
        window.wf(),
        window.is_open(),
        0 <= i < trace(window, data).len(),
        trace(window, data)[i] is Data,
    ensures
        1 <= trace(window, data)[i].payload().len() <= window.width(),
    decreases data.len(),
{
    let count: int = window.chunk_len(data.len() as int);
    let between: Seq<WriteView> = command_writes(row_change(window, count));
    if i > between.len() {
        window.lemma_advance_stays_inside(count);
        lemma_data_writes_fit_the_row(window.advance(count), data.skip(count), i - 1 - between.len());
    }
}

/// Where drawing leaves the cursor, in closed form. Counting the bytes from
/// the start of the cursor's row, every full width of the window is one
/// row down, and what is left over is the column; rows are counted round
/// the window, the first row following the last. Drawing never changes the
/// window itself.
pub proof fn lemma_drawn_position(window: WindowView, len: nat)
    requires
        window.wf(),
        window.is_open(),
    ensures
        ({
            let offset: int = (window.column - window.start.0) + len;
            let rows: int = (window.row - window.start.1) + offset / window.width();
            &&& drawn(window, len).start == window.start
            &&& drawn(window, len).end == window.end
            &&& drawn(window, len).column == window.start.0 + offset % window.width()
            &&& drawn(window, len).row == window.start.1 + rows % window.height()
            &&& drawn(window, len).wf()
        }),
    decreases len,
{
    let width: int = window.width();
    let height: int = window.height();
    let column: int = window.column - window.start.0;
    let row: int = window.row - window.start.1;
    let offset: int = column + len;
    let count: int = window.chunk_len(len as int);
    if count < window.room() || len == 0 {
        assert(offset < width);
        lemma_small_mod(offset as nat, width as nat);
        lemma_basic_div(offset, width);
        lemma_small_mod(row as nat, height as nat);
        assert(drawn(window, len) == window.advance(count)) by {
            reveal_with_fuel(drawn, 2);
        }
    } else {
        let moved: WindowView = window.advance(count);
        let left: nat = (len - count) as nat;
        window.lemma_advance_stays_inside(count);
        lemma_drawn_position(moved, left);
        assert(offset == width + left);
        lemma_mod_add_multiples_vanish(left as int, width);
        lemma_div_plus_one(left as int, width);
        let down: int = left as int / width;
        assert(offset / width == 1 + down);
        if row + 1 < height {
            assert(moved.row - moved.start.1 == row + 1);
        } else {
            assert(moved.row - moved.start.1 == 0);
            lemma_mod_add_multiples_vanish(down, height);
        }
    }
}

/// A buffer that ends exactly at the right edge of the window ends with a
/// refresh: its last data write fills the row, so the trace closes with the
/// three commands that point the controller at the first column of the row
/// the cursor went to.
pub proof fn lemma_full_rows_end_with_refresh(window: WindowView, data: Seq<u8>)
    requires
        window.wf(),
        window.is_open(),
        data.len() > 0,
        ((window.column - window.start.0) + data.len()) % window.width() == 0,
    ensures
        trace(window, data).len() >= 4,
        trace(window, data).skip(trace(window, data).len() - 3) == command_writes(
            drawn(window, data.len()).address(),
        ),
        drawn(window, data.len()).column == window.start.0,
    decreases data.len(),
{
    let width: int = window.width();
    let offset: int = (window.column - window.start.0) + data.len();
    let count: int = window.chunk_len(data.len() as int);
    let moved: WindowView = window.advance(count);
    let left: Seq<u8> = data.skip(count);
    let all: Seq<WriteView> = trace(window, data);
    if count < window.room() {
        lemma_small_mod(offset as nat, width as nat);
    }
    window.lemma_advance_stays_inside(count);
    lemma_mod_add_multiples_vanish(left.len() as int, width);
    assert(offset == width + left.len());
    assert(window.wraps(count));
    assert(all == seq![WriteView::Data(data.take(count))] + command_writes(moved.address())
        + trace(moved, left));
    if left.len() == 0 {
        assert(trace(moved, left) =~= Seq::<WriteView>::empty());
        assert(all.len() == 4);
        assert(all.skip(all.len() - 3) =~= command_writes(moved.address()));
        assert(drawn(window, data.len()) == moved) by {
            reveal_with_fuel(drawn, 2);
        }
    } else {
        lemma_full_rows_end_with_refresh(moved, left);
        let tail: Seq<WriteView> = trace(moved, left);
        assert(all.skip(all.len() - 3) =~= tail.skip(tail.len() - 3));
    }
}

/// Drawing an empty buffer takes no write, whatever the window: the first
/// step of its transfer hands out nothing and leaves window and cursor as
/// they are.
pub proof fn lemma_empty_buffer_draws_nothing(window: WindowView)
    ensures
        trace(window, Seq::empty()) == Seq::<WriteView>::empty(),
        drawn(window, 0) == window,
        step(window, TransferView::fresh(Seq::empty(), Seq::empty())) == (Step {
            window,
            transfer: TransferView::done(),
            write: None,
        }),
{
}

/// The steps of a transfer hand out the script of its operation, write by
/// write: after `steps` steps, the first `steps` writes of the script, or
/// all of it if it has no more.
pub proof fn lemma_run_follows_script(
    window: WindowView,
    commands: Seq<Command>,
    data: Seq<u8>,
    steps: nat,
)
    requires
        window.wf(),
        data.len() > 0 ==> window.is_open(),
    ensures
        steps <= script(window, commands, data).len() ==> run(
            window,
            TransferView::fresh(commands, data),
            steps,
        ).writes == script(window, commands, data).take(steps as int),
        steps > script(window, commands, data).len() ==> run(
            window,
            TransferView::fresh(commands, data),
            steps,
        ).writes == script(window, commands, data),
{
    lemma_run_takes_pending(window, TransferView::fresh(commands, data), steps);
    let all: Seq<WriteView> = script(window, commands, data);
    assert(all.take(all.len() as int) =~= all);
}

/// Where an operation stands when the channel rejects a write. Let the
/// write handed out by step `n` be the first to be rejected; the step that
/// is told so changes nothing and hands out no write. Then exactly the
/// first `n` writes of the script have been handed out, and the cursor
/// stands where the bytes of the `n - 1` writes before the rejected one
/// have taken it: what came through is kept, and nothing of the rejected
/// write or of those after it is.
pub proof fn lemma_rejected_write_keeps_progress(
    window: WindowView,
    commands: Seq<Command>,
    data: Seq<u8>,
    n: nat,
)
    requires
        window.wf(),
        data.len() > 0 ==> window.is_open(),
        1 <= n <= script(window, commands, data).len(),
    ensures
        run(window, TransferView::fresh(commands, data), n).writes == script(
            window,
            commands,
            data,
        ).take(n as int),
        run(window, TransferView::fresh(commands, data), n).window == drawn(
            window,
            payload(script(window, commands, data).take(n - 1)).len(),
        ),
{
    lemma_run_follows_script(window, commands, data, n);
    lemma_run_settles_taken_writes(window, TransferView::fresh(commands, data), n);
}

/// An operation whose writes all come through ends one step after the last
/// write of its script: that step hands out nothing, and leaves the cursor
/// where drawing the whole buffer takes it and the transfer over. Further
/// steps change nothing.
pub proof fn lemma_run_completes(
    window: WindowView,
    commands: Seq<Command>,
    data: Seq<u8>,
    steps: nat,
)
    requires
        window.wf(),
        data.len() > 0 ==> window.is_open(),
        steps > script(window, commands, data).len(),
    ensures
        run(window, TransferView::fresh(commands, data), steps).writes == script(
            window,
            commands,
            data,
        ),
        run(window, TransferView::fresh(commands, data), steps).window == drawn(
            window,
            data.len(),
        ),
        run(window, TransferView::fresh(commands, data), steps).transfer == TransferView::done(),
{
    let all: Seq<WriteView> = script(window, commands, data);
    let fresh: TransferView = TransferView::fresh(commands, data);
    lemma_run_follows_script(window, commands, data, steps);
    lemma_run_rests_when_done(window, fresh, steps);
    lemma_run_settles_taken_writes(window, fresh, all.len() + 1);
    assert(all.take(all.len() as int) =~= all);
    lemma_payload_concat(command_writes(commands), trace(window, data));
    lemma_payload_of_commands(commands);
    if data.len() > 0 {
        lemma_trace_carries_data(window, data);
    }
    assert(payload(all) =~= data);
}

/// An operation that only sends commands hands out exactly those commands,
/// in order, and never moves the cursor, however far it comes.
pub proof fn lemma_commands_leave_the_cursor(
    window: WindowView,
    commands: Seq<Command>,
    steps: nat,
)
    requires
        window.wf(),
    ensures
        script(window, commands, Seq::empty()) == command_writes(commands),
        run(window, TransferView::fresh(commands, Seq::empty()), steps).window == window,
{
    let fresh: TransferView = TransferView::fresh(commands, Seq::empty());
    let all: Seq<WriteView> = script(window, commands, Seq::empty());
    assert(all =~= command_writes(commands));
    if steps > 0 {
        let counted: nat = if steps <= all.len() {
            steps
        } else {
            all.len() + 1
        };
        if steps > all.len() {
            lemma_run_rests_when_done(window, fresh, steps);
        }
        lemma_run_settles_taken_writes(window, fresh, counted);
        let taken: Seq<WriteView> = all.take(counted - 1);
        assert(taken =~= command_writes(commands.take(counted - 1)));
        lemma_payload_of_commands(commands.take(counted - 1));
    }
}

} // verus!
