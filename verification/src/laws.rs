//! Laws of the breaking machine, proved over its model.

use vstd::prelude::*;
use crate::breaking::{BlockBreakingEvent, BreakingEntry, Ledger, Outcome, Phase};
use crate::breaking::{destruction, disposition, expired, releases, struck, struck_all, swept, ticked};
use crate::breaking::Disposition;
use crate::breaking::{lemma_entry_at, lemma_released_are_despawns, lemma_struck_frame};
use crate::breaking::{lemma_swept_entry, lemma_swept_wf};
use crate::config::{efficiency_of, Blocks, Command, Items};
use crate::grid::BlockPosition;
use crate::progress::{advanced, elapsed, gain, stage_change, stage_of};
use crate::progress::{BURST_WINDOW, PROGRESS_FULL, STAGE_STEP};

verus! {

/// A hit never removes an entry and never lowers its progress.
pub proof fn law_progress_never_falls(
    ledger: Ledger,
    event: BlockBreakingEvent,
    now: u64,
    blocks: Blocks,
    items: Items,
    position: BlockPosition,
)
    requires
        ledger.wf(),
        ledger.holds(position),
    ensures
        struck(ledger, event, now, blocks, items).ledger.holds(position),
        struck(ledger, event, now, blocks, items).ledger.entry(position)->0.progress
            >= ledger.entry(position)->0.progress,
{
    lemma_struck_frame(ledger, event, now, blocks, items);
    let j = ledger.slot(position);
    assert(ledger.entries[j].position == position);
    lemma_entry_at(ledger, j);
}

/// The hits of one tick keep a well-formed state well-formed, remove no entry
/// and lower no progress.
pub proof fn law_hits_only_add(
    ledger: Ledger,
    events: Seq<BlockBreakingEvent>,
    count: nat,
    now: u64,
    blocks: Blocks,
    items: Items,
)
    requires
        ledger.wf(),
        count <= events.len(),
    ensures
        struck_all(ledger, events, count, now, blocks, items).ledger.wf(),
        forall|q: BlockPosition| #[trigger]
            ledger.holds(q) ==> struck_all(ledger, events, count, now, blocks, items).ledger.holds(
                q,
            ) && struck_all(ledger, events, count, now, blocks, items).ledger.entry(q)->0.progress
                >= ledger.entry(q)->0.progress,
    decreases count,
{
    if count > 0 {
        let less = (count - 1) as nat;
        law_hits_only_add(ledger, events, less, now, blocks, items);
        let before = struck_all(ledger, events, less, now, blocks, items).ledger;
        let after = struck_all(ledger, events, count, now, blocks, items).ledger;
        lemma_struck_frame(before, events[count - 1], now, blocks, items);
        assert forall|q: BlockPosition| #[trigger] ledger.holds(q) implies after.holds(q)
            && after.entry(q)->0.progress >= ledger.entry(q)->0.progress by {
            law_progress_never_falls(before, events[count - 1], now, blocks, items, q);
        }
    }
}

/// A hit on a block without hardness changes nothing and causes no command.
pub proof fn law_unbreakable_ignored(
    ledger: Ledger,
    event: BlockBreakingEvent,
    now: u64,
    blocks: Blocks,
    items: Items,
)
    requires
        blocks.hardness(event.block) is None,
    ensures
        struck(ledger, event, now, blocks, items).ledger == ledger,
        struck(ledger, event, now, blocks, items).commands == Seq::<Command>::empty(),
{
}

/// However many hits a tick brings, if each is on a block without hardness,
/// then the tick creates no entry and mutates no block: it does what the
/// cleanup alone does.
pub proof fn law_unbreakable_never_tracked(
    ledger: Ledger,
    events: Seq<BlockBreakingEvent>,
    now: u64,
    blocks: Blocks,
    items: Items,
)
    requires
        forall|k: int| 0 <= k < events.len() ==> blocks.hardness((#[trigger] events[k]).block) is None,
    ensures
        struck_all(ledger, events, events.len(), now, blocks, items).ledger == ledger,
        struck_all(ledger, events, events.len(), now, blocks, items).commands == Seq::<
            Command,
        >::empty(),
        ticked(ledger, events, now, blocks, items).ledger == swept(ledger, now).ledger,
        ticked(ledger, events, now, blocks, items).commands == swept(ledger, now).commands,
        forall|k: int|
            0 <= k < ticked(ledger, events, now, blocks, items).commands.len() ==> (
            #[trigger] ticked(ledger, events, now, blocks, items).commands[k]) is DespawnProxy,
{
    lemma_unbreakable_prefix(ledger, events, events.len(), now, blocks, items);
    let commands = swept(ledger, now).commands;
    assert(Seq::<Command>::empty() + commands =~= commands);
    lemma_released_are_despawns(ledger.entries, now, ledger.entries.len());
    assert forall|k: int| 0 <= k < commands.len() implies (#[trigger] commands[k])
        is DespawnProxy by {
        assert(releases(commands[k], ledger.entries, now));
    }
}

proof fn lemma_unbreakable_prefix(
    ledger: Ledger,
    events: Seq<BlockBreakingEvent>,
    count: nat,
    now: u64,
    blocks: Blocks,
    items: Items,
)
    requires
        count <= events.len(),
        forall|k: int| 0 <= k < events.len() ==> blocks.hardness((#[trigger] events[k]).block) is None,
    ensures
        struck_all(ledger, events, count, now, blocks, items) == (Outcome {
            ledger,
            commands: Seq::empty(),
        }),
    decreases count,
{
    if count > 0 {
        lemma_unbreakable_prefix(ledger, events, (count - 1) as nat, now, blocks, items);
        law_unbreakable_ignored(ledger, events[count - 1], now, blocks, items);
        assert(Seq::<Command>::empty() + Seq::<Command>::empty() =~= Seq::<Command>::empty());
    }
}

/// The first hit on a block of hardness zero destroys it at once: the block
/// gives way to the empty block and, where a drop is configured for the tool
/// in hand, exactly one stack of it lands at the position. The entry that is
/// left guards the position for the rest of the tick and is gone after it.
pub proof fn law_instant_break(
    ledger: Ledger,
    event: BlockBreakingEvent,
    now: u64,
    blocks: Blocks,
    items: Items,
)
    requires
        ledger.wf(),
        !ledger.holds(event.position),
        event.held !is Unknown,
        blocks.hardness(event.block) == Some(0u32),
    ensures
        struck(ledger, event, now, blocks, items).commands == destruction(event, blocks, items),
        destruction(event, blocks, items).len() == if blocks.drop_for(
            event.block,
            items.tool_of(event.held),
        ) is Some {
            2int
        } else {
            1int
        },
        destruction(event, blocks, items)[0] == (Command::SetBlock {
            position: event.position,
            block: blocks.empty,
            orientation: None,
        }),
        blocks.drop_for(event.block, items.tool_of(event.held)) matches Some(d) ==> destruction(
            event,
            blocks,
            items,
        )[1] == (Command::SpawnGroundItem { item: d.item, count: d.count, position: event.position }),
        struck(ledger, event, now, blocks, items).ledger.phase(event.position, now)
            == Phase::Complete,
        struck(ledger, event, now, blocks, items).ledger.entry(event.position) == Some(
            (BreakingEntry {
                position: event.position,
                proxy: false,
                progress: PROGRESS_FULL,
                last_hit: now,
            }),
        ),
        !swept(struck(ledger, event, now, blocks, items).ledger, now).ledger.holds(event.position),
        !ticked(ledger, seq![event], now, blocks, items).ledger.holds(event.position),
        ticked(ledger, seq![event], now, blocks, items).commands == destruction(
            event,
            blocks,
            items,
        ) + swept(struck(ledger, event, now, blocks, items).ledger, now).commands,
{
    lemma_struck_frame(ledger, event, now, blocks, items);
    lemma_single_hit_tick(ledger, event, now, blocks, items);
    let out = struck(ledger, event, now, blocks, items).ledger;
    lemma_swept_entry(out, now, event.position);
}

/// A second hit on the same entry at the same time is dropped: it changes
/// nothing and causes no command, so that duplicates of an event within one
/// tick give one update.
pub proof fn law_duplicate_ignored(
    ledger: Ledger,
    event: BlockBreakingEvent,
    now: u64,
    blocks: Blocks,
    items: Items,
)
    requires
        ledger.wf(),
    ensures
        struck(struck(ledger, event, now, blocks, items).ledger, event, now, blocks, items) == (
        Outcome {
            ledger: struck(ledger, event, now, blocks, items).ledger,
            commands: Seq::empty(),
        }),
{
    lemma_struck_frame(ledger, event, now, blocks, items);
    let first = struck(ledger, event, now, blocks, items).ledger;
    if ledger.holds(event.position) {
        let slot = ledger.slot(event.position);
        assert(ledger.entries[slot].position == event.position);
        lemma_entry_at(ledger, slot);
    }
}

/// An entry that was not hit for longer than the idle timeout is gone after
/// the cleanup, whatever its progress, and a cleanup mutates no block: each
/// of its commands removes the proxy of an entry that it dropped.
pub proof fn law_idle_entry_dropped(ledger: Ledger, now: u64, position: BlockPosition)
    requires
        ledger.wf(),
        ledger.entry(position) matches Some(e) && expired(e, now),
    ensures
        !swept(ledger, now).ledger.holds(position),
        forall|k: int|
            0 <= k < swept(ledger, now).commands.len() ==> releases(
                #[trigger] swept(ledger, now).commands[k],
                ledger.entries,
                now,
            ),
{
    lemma_swept_entry(ledger, now, position);
    lemma_released_are_despawns(ledger.entries, now, ledger.entries.len());
}

/// The stage shown after an update is the highest tenth that progress has
/// reached: every tenth at or below the new progress is covered by it, none
/// above. A stage is shown exactly when a tenth was newly reached.
pub proof fn law_stage_shown(before: int, after: int)
    requires
        0 <= before <= after < PROGRESS_FULL,
    ensures
        stage_change(before, after) is Some <==> exists|d: int|
            1 <= d <= 9 && before < #[trigger] (d * STAGE_STEP) <= after,
        stage_change(before, after) matches Some(k) ==> 1 <= k <= 9 && forall|d: int|
            1 <= d <= 9 ==> (d <= k <==> #[trigger] (d * STAGE_STEP) <= after),
{
    let reached = stage_of(after);
    if stage_change(before, after) is Some {
        assert(before < reached * STAGE_STEP <= after);
    }
    if exists|d: int| 1 <= d <= 9 && before < #[trigger] (d * STAGE_STEP) <= after {
        let d = choose|d: int| 1 <= d <= 9 && before < #[trigger] (d * STAGE_STEP) <= after;
        assert(stage_of(before) < d <= stage_of(after));
    }
}

/// The state after the first `count` ticks of a player who keeps hitting one
/// block: tick `k` comes at `times[k]` and brings the one hit `event`.
pub open spec fn hit_repeatedly(
    ledger: Ledger,
    event: BlockBreakingEvent,
    times: Seq<u64>,
    count: nat,
    blocks: Blocks,
    items: Items,
) -> Ledger
    decreases count,
{
    if count == 0 {
        ledger
    } else {
        ticked(
            hit_repeatedly(ledger, event, times, (count - 1) as nat, blocks, items),
            seq![event],
            times[count - 1],
            blocks,
            items,
        ).ledger
    }
}

/// Whether the `n`-th of those ticks breaks the block: the block had an entry
/// before the tick, the tick replaces it by the empty block, and the entry is
/// gone after it.
pub open spec fn breaks_at(
    ledger: Ledger,
    event: BlockBreakingEvent,
    times: Seq<u64>,
    n: nat,
    blocks: Blocks,
    items: Items,
) -> bool {
    let before = hit_repeatedly(ledger, event, times, (n - 1) as nat, blocks, items);
    let tick = ticked(before, seq![event], times[n - 1], blocks, items);
    &&& before.holds(event.position)
    &&& tick.commands.len() > 0
    &&& tick.commands[0] == (Command::SetBlock {
        position: event.position,
        block: blocks.empty,
        orientation: None,
    })
    &&& !tick.ledger.holds(event.position)
}

/// A tick with one hit is that hit followed by the cleanup.
pub proof fn lemma_single_hit_tick(
    ledger: Ledger,
    event: BlockBreakingEvent,
    now: u64,
    blocks: Blocks,
    items: Items,
)
    ensures
        ticked(ledger, seq![event], now, blocks, items).ledger == swept(
            struck(ledger, event, now, blocks, items).ledger,
            now,
        ).ledger,
        ticked(ledger, seq![event], now, blocks, items).commands == struck(
            ledger,
            event,
            now,
            blocks,
            items,
        ).commands + swept(struck(ledger, event, now, blocks, items).ledger, now).commands,
{
    reveal_with_fuel(struck_all, 2);
    let events = seq![event];
    assert(events.len() == 1);
    assert(events[0] == event);
    let step = struck(ledger, event, now, blocks, items);
    assert(Seq::<Command>::empty() + step.commands =~= step.commands);
}

/// Whether hits at `times` are steady: each comes later than the burst
/// window after the one before.
pub open spec fn steady(times: Seq<u64>) -> bool {
    forall|k: int| 0 < k < times.len() ==> #[trigger] times[k] - times[k - 1] > BURST_WINDOW
}

proof fn lemma_floor_loss(a: int, h: int)
    by (nonlinear_arith)
    requires
        0 <= a,
        0 < h,
    ensures
        (a / h) * h + h > a,
        (a / h) * h <= a,
{
}

proof fn lemma_hits_accumulate(
    ledger: Ledger,
    event: BlockBreakingEvent,
    times: Seq<u64>,
    count: nat,
    blocks: Blocks,
    items: Items,
    h: u32,
)
    requires
        ledger.wf(),
        !ledger.holds(event.position),
        event.held !is Unknown,
        blocks.hardness(event.block) == Some(h),
        h > 0,
        steady(times),
        1 <= count <= times.len(),
    ensures
        (exists|n: nat| 2 <= n <= count && #[trigger] breaks_at(ledger, event, times, n, blocks, items))
            || ({
            let now = hit_repeatedly(ledger, event, times, count, blocks, items);
            &&& now.wf()
            &&& now.entry(event.position) matches Some(e)
            &&& e.last_hit == times[count - 1]
            &&& e.progress < PROGRESS_FULL
            &&& times[count - 1] >= times[0]
            &&& e.progress * h + (count - 1) * h >= (times[count - 1] - times[0]) * efficiency_of(
                items.tool_of(event.held),
            )
        }),
    decreases count,
{
    let p = event.position;
    let eff = efficiency_of(items.tool_of(event.held));
    if count == 1 {
        let now = times[0];
        lemma_single_hit_tick(ledger, event, now, blocks, items);
        lemma_struck_frame(ledger, event, now, blocks, items);
        let hit = struck(ledger, event, now, blocks, items).ledger;
        lemma_swept_entry(hit, now, p);
        lemma_swept_wf(hit, now);
        let after = hit_repeatedly(ledger, event, times, 1, blocks, items);
        assert(after == swept(hit, now).ledger) by {
            reveal_with_fuel(hit_repeatedly, 2);
        }
        assert((times[0] - times[0]) * eff == 0) by (nonlinear_arith);
    } else {
        let less = (count - 1) as nat;
        lemma_hits_accumulate(ledger, event, times, less, blocks, items, h);
        if exists|n: nat|
            2 <= n <= less && #[trigger] breaks_at(ledger, event, times, n, blocks, items) {
            let n = choose|n: nat|
                2 <= n <= less && #[trigger] breaks_at(ledger, event, times, n, blocks, items);
            assert(2 <= n <= count && breaks_at(ledger, event, times, n, blocks, items));
        } else {
            let before = hit_repeatedly(ledger, event, times, less, blocks, items);
            let e = before.entry(p)->0;
            let now = times[count - 1];
            let last = times[count - 2];
            assert(times[count - 1] - times[count - 2] > BURST_WINDOW);
            let gap = elapsed(last as int, now as int);
            assert(gap == now - last);
            lemma_single_hit_tick(before, event, now, blocks, items);
            lemma_struck_frame(before, event, now, blocks, items);
            let hit = struck(before, event, now, blocks, items);
            lemma_swept_entry(hit.ledger, now, p);
            lemma_swept_wf(hit.ledger, now);
            let tick = ticked(before, seq![event], now, blocks, items);
            let step = gain(gap, h as int, eff);
            let progress = advanced(e.progress as int, step);
            let slot = before.slot(p);
            assert(hit.ledger.entries[slot].progress == progress);
            assert(hit.ledger.entries[slot].last_hit == now);
            if progress >= PROGRESS_FULL {
                assert(hit.commands == destruction(event, blocks, items));
                assert(hit.commands.len() > 0);
                assert(tick.commands[0] == hit.commands[0]);
                assert(breaks_at(ledger, event, times, count, blocks, items));
            } else {
                let after = hit_repeatedly(ledger, event, times, count, blocks, items);
                assert(after == tick.ledger);
                assert(after.entry(p) == Some(hit.ledger.entries[slot]));
                let product = gap * eff;
                assert(product >= 0) by (nonlinear_arith)
                    requires
                        gap >= 0,
                        eff >= 0,
                        product == gap * eff,
                ;
                lemma_floor_loss(product, h as int);
                assert(step == product / (h as int));
                assert(progress == e.progress + step);
                assert(progress * h == e.progress * h + step * h) by (nonlinear_arith)
                    requires
                        progress == e.progress + step,
                ;
                assert((now - times[0]) * eff == (last - times[0]) * eff + gap * eff)
                    by (nonlinear_arith)
                    requires
                        gap == now - last,
                ;
                assert((count - 1) * h == (count - 2) * h + h) by (nonlinear_arith);
            }
        }
    }
}

/// Steady hits break a block of positive hardness.
///
/// A player hits a breakable block that has no entry yet, once per tick, each
/// hit later than the burst window after the one before. Every hit after the
/// first adds `gap * efficiency / hardness` millionths, rounded down, so once
/// the time from the first hit to the last, times the efficiency, makes up
/// for the hardness and for one millionth of rounding per hit, one of the
/// ticks has broken the block: it put the empty block in its place and
/// dropped the entry.
pub proof fn law_steady_hits_break(
    ledger: Ledger,
    event: BlockBreakingEvent,
    times: Seq<u64>,
    blocks: Blocks,
    items: Items,
    h: u32,
)
    requires
        ledger.wf(),
        !ledger.holds(event.position),
        event.held !is Unknown,
        blocks.hardness(event.block) == Some(h),
        h > 0,
        steady(times),
        times.len() >= 1,
        (times.last() - times[0]) * efficiency_of(items.tool_of(event.held)) >= h * (PROGRESS_FULL
            + times.len() - 1),
    ensures
        exists|n: nat|
            2 <= n <= times.len() && #[trigger] breaks_at(ledger, event, times, n, blocks, items),
{
    let count = times.len();
    lemma_hits_accumulate(ledger, event, times, count, blocks, items, h);
    if !(exists|n: nat|
        2 <= n <= count && #[trigger] breaks_at(ledger, event, times, n, blocks, items)) {
        let now = hit_repeatedly(ledger, event, times, count, blocks, items);
        let e = now.entry(event.position)->0;
        let eff = efficiency_of(items.tool_of(event.held));
        let span = (times.last() - times[0]) * eff;
        assert(e.progress * h + (count - 1) * h >= span);
        assert(span >= h * (PROGRESS_FULL + count - 1));
        assert(false) by (nonlinear_arith)
            requires
                e.progress * h + (count - 1) * h >= h * (PROGRESS_FULL + count - 1),
                e.progress < PROGRESS_FULL,
                h > 0,
        ;
    }
}

/// Whether `command` changes the world at `position`: it replaces the block
/// there or puts items on the ground there.
pub open spec fn mutates(command: Command, position: BlockPosition) -> bool {
    match command {
        Command::SetBlock { position: p, .. } => p == position,
        Command::SpawnGroundItem { position: p, .. } => p == position,
        _ => false,
    }
}

/// A hit changes the world at no position but its own.
pub proof fn law_hit_mutates_own_position(
    ledger: Ledger,
    event: BlockBreakingEvent,
    now: u64,
    blocks: Blocks,
    items: Items,
    position: BlockPosition,
)
    requires
        position != event.position,
    ensures
        forall|k: int|
            0 <= k < struck(ledger, event, now, blocks, items).commands.len() ==> !mutates(
                #[trigger] struck(ledger, event, now, blocks, items).commands[k],
                position,
            ),
{
}

proof fn lemma_untouched(
    ledger: Ledger,
    events: Seq<BlockBreakingEvent>,
    count: nat,
    now: u64,
    blocks: Blocks,
    items: Items,
    position: BlockPosition,
)
    requires
        ledger.wf(),
        count <= events.len(),
        forall|k: int| 0 <= k < events.len() ==> (#[trigger] events[k]).position != position,
    ensures
        struck_all(ledger, events, count, now, blocks, items).ledger.entry(position)
            == ledger.entry(position),
        forall|k: int|
            0 <= k < struck_all(ledger, events, count, now, blocks, items).commands.len()
                ==> !mutates(
                #[trigger] struck_all(ledger, events, count, now, blocks, items).commands[k],
                position,
            ),
    decreases count,
{
    if count > 0 {
        let less = (count - 1) as nat;
        lemma_untouched(ledger, events, less, now, blocks, items, position);
        law_hits_only_add(ledger, events, less, now, blocks, items);
        let before = struck_all(ledger, events, less, now, blocks, items);
        let event = events[count - 1];
        lemma_struck_frame(before.ledger, event, now, blocks, items);
        law_hit_mutates_own_position(before.ledger, event, now, blocks, items, position);
        let step = struck(before.ledger, event, now, blocks, items);
        let after = struck_all(ledger, events, count, now, blocks, items);
        assert(after.commands == before.commands + step.commands);
        assert forall|k: int| 0 <= k < after.commands.len() implies !mutates(
            #[trigger] after.commands[k],
            position,
        ) by {
            if k < before.commands.len() {
                assert(after.commands[k] == before.commands[k]);
            } else {
                assert(after.commands[k] == step.commands[k - before.commands.len()]);
            }
        }
    }
}

/// An entry that no hit of the tick touches, and that was last hit longer
/// ago than the idle timeout, is gone after the tick, whatever its progress,
/// and the tick changes nothing in the world at its position.
pub proof fn law_untouched_entry_times_out(
    ledger: Ledger,
    events: Seq<BlockBreakingEvent>,
    now: u64,
    blocks: Blocks,
    items: Items,
    position: BlockPosition,
)
    requires
        ledger.wf(),
        ledger.entry(position) matches Some(e) && expired(e, now),
        forall|k: int| 0 <= k < events.len() ==> (#[trigger] events[k]).position != position,
    ensures
        !ticked(ledger, events, now, blocks, items).ledger.holds(position),
        forall|k: int|
            0 <= k < ticked(ledger, events, now, blocks, items).commands.len() ==> !mutates(
                #[trigger] ticked(ledger, events, now, blocks, items).commands[k],
                position,
            ),
{
    let count = events.len();
    lemma_untouched(ledger, events, count, now, blocks, items, position);
    law_hits_only_add(ledger, events, count, now, blocks, items);
    let hits = struck_all(ledger, events, count, now, blocks, items);
    law_idle_entry_dropped(hits.ledger, now, position);
    let rest = swept(hits.ledger, now);
    let all = ticked(ledger, events, now, blocks, items).commands;
    assert forall|k: int| 0 <= k < all.len() implies !mutates(#[trigger] all[k], position) by {
        if k < hits.commands.len() {
            assert(all[k] == hits.commands[k]);
        } else {
            let c = rest.commands[k - hits.commands.len()];
            assert(all[k] == c);
            assert(releases(c, hits.ledger.entries, now));
        }
    }
}

/// A tick that brings the same event twice does what a tick does that brings
/// it once.
pub proof fn law_duplicates_in_tick(
    ledger: Ledger,
    event: BlockBreakingEvent,
    now: u64,
    blocks: Blocks,
    items: Items,
)
    requires
        ledger.wf(),
    ensures
        ticked(ledger, seq![event, event], now, blocks, items).ledger == ticked(
            ledger,
            seq![event],
            now,
            blocks,
            items,
        ).ledger,
        ticked(ledger, seq![event, event], now, blocks, items).commands == ticked(
            ledger,
            seq![event],
            now,
            blocks,
            items,
        ).commands,
{
    reveal_with_fuel(struck_all, 3);
    law_duplicate_ignored(ledger, event, now, blocks, items);
    lemma_single_hit_tick(ledger, event, now, blocks, items);
    let twice = seq![event, event];
    assert(twice.len() == 2 && twice[0] == event && twice[1] == event);
    let first = struck(ledger, event, now, blocks, items);
    let both = struck_all(ledger, twice, 2, now, blocks, items);
    assert(Seq::<Command>::empty() + first.commands =~= first.commands);
    assert(first.commands + Seq::<Command>::empty() =~= first.commands);
    assert(both.ledger == first.ledger);
    assert(both.commands == first.commands);
}

/// Between ticks every block is either not being broken or on its way: a
/// tick leaves no entry behind that is complete or timed out.
pub proof fn law_tick_leaves_absent_or_active(
    ledger: Ledger,
    events: Seq<BlockBreakingEvent>,
    now: u64,
    blocks: Blocks,
    items: Items,
    position: BlockPosition,
)
    requires
        ledger.wf(),
    ensures
        ticked(ledger, events, now, blocks, items).ledger.wf(),
        ticked(ledger, events, now, blocks, items).ledger.settled(),
        ticked(ledger, events, now, blocks, items).ledger.phase(position, now) is Absent || ticked(
            ledger,
            events,
            now,
            blocks,
            items,
        ).ledger.phase(position, now) is Active,
{
    law_hits_only_add(ledger, events, events.len(), now, blocks, items);
    let hits = struck_all(ledger, events, events.len(), now, blocks, items).ledger;
    lemma_swept_wf(hits, now);
    lemma_swept_entry(hits, now, position);
}

/// Every hit is either applied or dropped for a stated reason. A dropped hit
/// changes nothing and causes no command; an applied hit leaves an entry at
/// its position that was hit at `now`.
pub proof fn law_hit_applied_or_dropped(
    ledger: Ledger,
    event: BlockBreakingEvent,
    now: u64,
    blocks: Blocks,
    items: Items,
)
    requires
        ledger.wf(),
    ensures
        disposition(ledger, event, now, blocks) != Disposition::Applied ==> struck(
            ledger,
            event,
            now,
            blocks,
            items,
        ) == (Outcome { ledger, commands: Seq::empty() }),
        disposition(ledger, event, now, blocks) == Disposition::Applied ==> (struck(
            ledger,
            event,
            now,
            blocks,
            items,
        ).ledger.entry(event.position) matches Some(e) && e.last_hit == now),
{
    lemma_struck_frame(ledger, event, now, blocks, items);
    if ledger.holds(event.position) {
        let slot = ledger.slot(event.position);
        assert(ledger.entries[slot].position == event.position);
        lemma_entry_at(ledger, slot);
    }
}

/// An entry that no hit of the tick touches, and that is neither broken nor
/// timed out, is after the tick what it was before, and the tick changes
/// nothing in the world at its position.
pub proof fn law_untouched_entry_kept(
    ledger: Ledger,
    events: Seq<BlockBreakingEvent>,
    now: u64,
    blocks: Blocks,
    items: Items,
    position: BlockPosition,
)
    requires
        ledger.wf(),
        ledger.entry(position) matches Some(e) && !expired(e, now) && e.progress < PROGRESS_FULL,
        forall|k: int| 0 <= k < events.len() ==> (#[trigger] events[k]).position != position,
    ensures
        ticked(ledger, events, now, blocks, items).ledger.entry(position) == ledger.entry(position),
        forall|k: int|
            0 <= k < ticked(ledger, events, now, blocks, items).commands.len() ==> !mutates(
                #[trigger] ticked(ledger, events, now, blocks, items).commands[k],
                position,
            ),
{
    let count = events.len();
    lemma_untouched(ledger, events, count, now, blocks, items, position);
    law_hits_only_add(ledger, events, count, now, blocks, items);
    let hits = struck_all(ledger, events, count, now, blocks, items);
    lemma_swept_entry(hits.ledger, now, position);
    lemma_released_are_despawns(hits.ledger.entries, now, hits.ledger.entries.len());
    let rest = swept(hits.ledger, now);
    let all = ticked(ledger, events, now, blocks, items).commands;
    assert forall|k: int| 0 <= k < all.len() implies !mutates(#[trigger] all[k], position) by {
        if k < hits.commands.len() {
            assert(all[k] == hits.commands[k]);
        } else {
            let c = rest.commands[k - hits.commands.len()];
            assert(all[k] == c);
            assert(releases(c, hits.ledger.entries, now));
        }
    }
}

/// The progress that an entry of progress `before`, last hit at `last`, has
/// after a hit at `now` on a block of hardness `hardness` with a tool of the
/// given efficiency: what it had, within the burst window; else that and the
/// progress gained since the last hit.
pub open spec fn progress_after(
    before: u32,
    last: u64,
    now: u64,
    hardness: u32,
    efficiency: int,
) -> int {
    let gap = elapsed(last as int, now as int);
    if gap <= BURST_WINDOW {
        before as int
    } else {
        advanced(before as int, gain(gap, hardness as int, efficiency))
    }
}

/// A tick that brings one hit on a block that is being broken.
///
/// The progress of the entry does not fall. While it stays below the whole,
/// the entry is after the tick what it was, but for the new progress and the
/// time of the hit. Once it is whole, the entry is gone after the tick, and a
/// hit later than the burst window has destroyed the block: the commands of
/// the tick begin with those of the destruction, and the rest are those of the
/// cleanup.
pub proof fn law_hit_on_entry(
    ledger: Ledger,
    event: BlockBreakingEvent,
    now: u64,
    blocks: Blocks,
    items: Items,
    entry: BreakingEntry,
    hardness: u32,
)
    requires
        ledger.wf(),
        ledger.entry(event.position) == Some(entry),
        entry.last_hit != now,
        event.held !is Unknown,
        blocks.hardness(event.block) == Some(hardness),
    ensures
        progress_after(
            entry.progress,
            entry.last_hit,
            now,
            hardness,
            efficiency_of(items.tool_of(event.held)),
        ) >= entry.progress || entry.progress > PROGRESS_FULL,
        progress_after(
            entry.progress,
            entry.last_hit,
            now,
            hardness,
            efficiency_of(items.tool_of(event.held)),
        ) < PROGRESS_FULL ==> ticked(ledger, seq![event], now, blocks, items).ledger.entry(
            event.position,
        ) == Some(
            (BreakingEntry {
                position: entry.position,
                proxy: entry.proxy,
                progress: progress_after(
                    entry.progress,
                    entry.last_hit,
                    now,
                    hardness,
                    efficiency_of(items.tool_of(event.held)),
                ) as u32,
                last_hit: now,
            }),
        ),
        progress_after(
            entry.progress,
            entry.last_hit,
            now,
            hardness,
            efficiency_of(items.tool_of(event.held)),
        ) >= PROGRESS_FULL ==> !ticked(ledger, seq![event], now, blocks, items).ledger.holds(
            event.position,
        ),
        progress_after(
            entry.progress,
            entry.last_hit,
            now,
            hardness,
            efficiency_of(items.tool_of(event.held)),
        ) >= PROGRESS_FULL && elapsed(entry.last_hit as int, now as int) > BURST_WINDOW ==> ticked(
            ledger,
            seq![event],
            now,
            blocks,
            items,
        ).commands == destruction(event, blocks, items) + swept(
            struck(ledger, event, now, blocks, items).ledger,
            now,
        ).commands,
{
    let p = event.position;
    lemma_single_hit_tick(ledger, event, now, blocks, items);
    lemma_struck_frame(ledger, event, now, blocks, items);
    let hit = struck(ledger, event, now, blocks, items);
    lemma_swept_entry(hit.ledger, now, p);
    let slot = ledger.slot(p);
    assert(ledger.entries[slot].position == p);
    lemma_entry_at(ledger, slot);
    assert(hit.ledger.entries[slot].last_hit == now);
}

} // verus!
