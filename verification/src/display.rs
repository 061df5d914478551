//! What the proxies show, as the host makes it from the commands of the
//! breaking machine, and the law that ties it to breaking progress.

use vstd::prelude::*;
use crate::breaking::{destruction, released_upto, retired, struck, struck_all};
use crate::breaking::{swept, ticked, BlockBreakingEvent, BreakingEntry, Ledger};
use crate::breaking::{lemma_entry_at, lemma_struck_frame, lemma_swept_entry, lemma_swept_wf};
use crate::config::{Blocks, Command, Items};
use crate::grid::BlockPosition;
use crate::progress::{stage_of, PROGRESS_FULL};

verus! {

/// What stands where after the host has carried out `command` on `display`.
/// A display maps the position of each proxy to the stage that the proxy
/// shows, zero for a hidden proxy.
pub open spec fn shown(display: Map<BlockPosition, u8>, command: Command) -> Map<
    BlockPosition,
    u8,
> {
    match command {
        Command::SpawnProxy { position } => display.insert(position, 0),
        Command::ShowStage { position, stage } => if display.dom().contains(position) {
            display.insert(position, stage)
        } else {
            display
        },
        Command::DespawnProxy { position } => display.remove(position),
        _ => display,
    }
}

/// What stands where after the host has carried out `commands` in order.
pub open spec fn shown_all(display: Map<BlockPosition, u8>, commands: Seq<Command>) -> Map<
    BlockPosition,
    u8,
>
    decreases commands.len(),
{
    if commands.len() == 0 {
        display
    } else {
        shown(shown_all(display, commands.drop_last()), commands.last())
    }
}

/// Whether a proxy that shows `stage` fits an entry of the given progress:
/// it shows no stage above the tenths reached and, where `exact` is asked,
/// just the stage of the tenths reached, so that it is hidden below one tenth.
/// Of the proxy of a broken block, which is about to leave, nothing is asked.
pub open spec fn fits(stage: u8, progress: u32, exact: bool) -> bool {
    if progress >= PROGRESS_FULL {
        true
    } else if exact {
        stage == stage_of(progress as int)
    } else {
        stage <= stage_of(progress as int)
    }
}

/// Whether `display` portrays `ledger`: a proxy stands exactly where an
/// entry has one, and each fits the progress of its entry.
pub open spec fn portrays(display: Map<BlockPosition, u8>, ledger: Ledger, exact: bool) -> bool {
    forall|q: BlockPosition|
        {
            &&& #[trigger] display.dom().contains(q) <==> (ledger.entry(q) is Some
                && ledger.entry(q)->0.proxy)
            &&& display.dom().contains(q) ==> fits(display[q], ledger.entry(q)->0.progress, exact)
        }
}

proof fn lemma_shown_push(display: Map<BlockPosition, u8>, commands: Seq<Command>, last: Command)
    ensures
        shown_all(display, commands.push(last)) == shown(shown_all(display, commands), last),
{
    assert(commands.push(last).drop_last() =~= commands);
}

proof fn lemma_shown_concat(display: Map<BlockPosition, u8>, a: Seq<Command>, b: Seq<Command>)
    ensures
        shown_all(display, a + b) == shown_all(shown_all(display, a), b),
    decreases b.len(),
{
    if b.len() == 0 {
        assert(a + b =~= a);
    } else {
        lemma_shown_concat(display, a, b.drop_last());
        assert((a + b).drop_last() =~= a + b.drop_last());
    }
}

proof fn lemma_shown_few(display: Map<BlockPosition, u8>, first: Command, second: Command)
    ensures
        shown_all(display, Seq::empty()) == display,
        shown_all(display, seq![first]) == shown(display, first),
        shown_all(display, seq![first, second]) == shown(shown(display, first), second),
{
    assert(seq![first] =~= Seq::<Command>::empty().push(first));
    assert(seq![first, second] =~= Seq::<Command>::empty().push(first).push(second));
    lemma_shown_push(display, Seq::empty(), first);
    lemma_shown_push(display, Seq::<Command>::empty().push(first), second);
}

/// The commands that destroy a block leave every proxy as it is.
proof fn lemma_destruction_shows_nothing(
    display: Map<BlockPosition, u8>,
    event: BlockBreakingEvent,
    blocks: Blocks,
    items: Items,
)
    ensures
        shown_all(display, destruction(event, blocks, items)) == display,
{
    let commands = destruction(event, blocks, items);
    lemma_shown_few(display, commands[0], commands[0]);
    if commands.len() == 2 {
        lemma_shown_few(display, commands[0], commands[1]);
        assert(commands =~= seq![commands[0], commands[1]]);
    } else {
        assert(commands =~= seq![commands[0]]);
    }
}

/// One hit keeps the display in step with the entries.
proof fn lemma_hit_portrayed(
    ledger: Ledger,
    display: Map<BlockPosition, u8>,
    event: BlockBreakingEvent,
    now: u64,
    blocks: Blocks,
    items: Items,
    exact: bool,
)
    requires
        ledger.wf(),
        portrays(display, ledger, exact),
    ensures
        portrays(
            shown_all(display, struck(ledger, event, now, blocks, items).commands),
            struck(ledger, event, now, blocks, items).ledger,
            exact,
        ),
{
    let out = struck(ledger, event, now, blocks, items);
    let after = shown_all(display, out.commands);
    let p = event.position;
    lemma_struck_frame(ledger, event, now, blocks, items);
    lemma_destruction_shows_nothing(display, event, blocks, items);
    let filler = Command::DespawnProxy { position: p };
    lemma_shown_few(display, filler, filler);
    assert(display.dom().contains(p) <==> (ledger.entry(p) is Some && ledger.entry(p)->0.proxy));
    if out.commands.len() == 1 && out.commands != destruction(event, blocks, items) {
        lemma_shown_few(display, out.commands[0], filler);
        assert(out.commands =~= seq![out.commands[0]]);
    }
    if ledger.holds(p) {
        let slot = ledger.slot(p);
        assert(ledger.entries[slot].position == p);
        lemma_entry_at(ledger, slot);
    }
    assert forall|q: BlockPosition|
        {
            &&& #[trigger] after.dom().contains(q) <==> (out.ledger.entry(q) is Some
                && out.ledger.entry(q)->0.proxy)
            &&& after.dom().contains(q) ==> fits(after[q], out.ledger.entry(q)->0.progress, exact)
        } by {
        assert(display.dom().contains(q) <==> (ledger.entry(q) is Some && ledger.entry(
            q,
        )->0.proxy));
        if q != p {
            assert(out.ledger.entry(q) == ledger.entry(q));
            assert(after.dom().contains(q) == display.dom().contains(q));
            if display.dom().contains(q) {
                assert(after[q] == display[q]);
            }
        }
    }
}

/// The hits of a tick keep the display in step with the entries.
proof fn lemma_hits_portrayed(
    ledger: Ledger,
    display: Map<BlockPosition, u8>,
    events: Seq<BlockBreakingEvent>,
    count: nat,
    now: u64,
    blocks: Blocks,
    items: Items,
    exact: bool,
)
    requires
        ledger.wf(),
        portrays(display, ledger, exact),
        count <= events.len(),
    ensures
        struck_all(ledger, events, count, now, blocks, items).ledger.wf(),
        portrays(
            shown_all(display, struck_all(ledger, events, count, now, blocks, items).commands),
            struck_all(ledger, events, count, now, blocks, items).ledger,
            exact,
        ),
    decreases count,
{
    if count > 0 {
        let less = (count - 1) as nat;
        lemma_hits_portrayed(ledger, display, events, less, now, blocks, items, exact);
        let before = struck_all(ledger, events, less, now, blocks, items);
        let step = struck(before.ledger, events[count - 1], now, blocks, items);
        let middle = shown_all(display, before.commands);
        lemma_struck_frame(before.ledger, events[count - 1], now, blocks, items);
        lemma_hit_portrayed(before.ledger, middle, events[count - 1], now, blocks, items, exact);
        lemma_shown_concat(display, before.commands, step.commands);
    }
}

/// After the commands of a cleanup a proxy stands where one stood before,
/// unless it belongs to one of the entries that the cleanup dropped, and
/// shows what it showed.
proof fn lemma_released_shown(
    display: Map<BlockPosition, u8>,
    entries: Seq<BreakingEntry>,
    now: u64,
    count: nat,
)
    requires
        count <= entries.len(),
    ensures
        forall|q: BlockPosition| #[trigger]
            shown_all(display, released_upto(entries, now, count)).dom().contains(q) <==> (
            display.dom().contains(q) && !exists|j: int|
                0 <= j < count && (#[trigger] entries[j]).position == q && retired(entries[j], now)
                    && entries[j].proxy),
        forall|q: BlockPosition| #[trigger]
            shown_all(display, released_upto(entries, now, count)).dom().contains(q) ==> shown_all(
                display,
                released_upto(entries, now, count),
            )[q] == display[q],
    decreases count,
{
    if count > 0 {
        let less = (count - 1) as nat;
        lemma_released_shown(display, entries, now, less);
        let before = shown_all(display, released_upto(entries, now, less));
        let after = shown_all(display, released_upto(entries, now, count));
        let entry = entries[count - 1];
        if retired(entry, now) && entry.proxy {
            lemma_shown_push(
                display,
                released_upto(entries, now, less),
                Command::DespawnProxy { position: entry.position },
            );
        }
        assert forall|q: BlockPosition| #[trigger] after.dom().contains(q) <==> (
        display.dom().contains(q) && !exists|j: int|
            0 <= j < count && (#[trigger] entries[j]).position == q && retired(entries[j], now)
                && entries[j].proxy) by {
            let gone_before = exists|j: int|
                0 <= j < less && (#[trigger] entries[j]).position == q && retired(entries[j], now)
                    && entries[j].proxy;
            let gone_now = exists|j: int|
                0 <= j < count && (#[trigger] entries[j]).position == q && retired(
                    entries[j],
                    now,
                ) && entries[j].proxy;
            assert(before.dom().contains(q) <==> (display.dom().contains(q) && !gone_before));
            if gone_before {
                let j = choose|j: int|
                    0 <= j < less && (#[trigger] entries[j]).position == q && retired(
                        entries[j],
                        now,
                    ) && entries[j].proxy;
                assert(0 <= j < count && entries[j].position == q);
            }
            if gone_now && !gone_before {
                let j = choose|j: int|
                    0 <= j < count && (#[trigger] entries[j]).position == q && retired(
                        entries[j],
                        now,
                    ) && entries[j].proxy;
                if j < less {
                    assert(entries[j].position == q);
                }
            }
            if entry.position == q && retired(entry, now) && entry.proxy {
                assert(entries[count - 1].position == q);
            }
        }
    }
}

/// The display stays in step with breaking progress.
///
/// Take a display that portrays the entries before a tick: a proxy stands
/// exactly where an entry has one, and none shows a stage above the tenths
/// that its entry has reached. After the host has carried out the commands of
/// the tick, in order, the display portrays the entries that the tick leaves.
/// With `exact`, each proxy moreover shows just the stage of the tenths that
/// its entry has reached, before and after: every tenth at or below the
/// progress is shown, none above, and the proxy is hidden below one tenth.
pub proof fn law_proxies_show_progress(
    ledger: Ledger,
    display: Map<BlockPosition, u8>,
    events: Seq<BlockBreakingEvent>,
    now: u64,
    blocks: Blocks,
    items: Items,
    exact: bool,
)
    requires
        ledger.wf(),
        portrays(display, ledger, exact),
    ensures
        portrays(
            shown_all(display, ticked(ledger, events, now, blocks, items).commands),
            ticked(ledger, events, now, blocks, items).ledger,
            exact,
        ),
        forall|q: BlockPosition| #[trigger]
            shown_all(display, ticked(ledger, events, now, blocks, items).commands).dom().contains(
                q,
            ) ==> shown_all(display, ticked(ledger, events, now, blocks, items).commands)[q]
                <= stage_of(
                ticked(ledger, events, now, blocks, items).ledger.entry(q)->0.progress as int,
            ) <= 9,
{
    let hits = struck_all(ledger, events, events.len(), now, blocks, items);
    let rest = swept(hits.ledger, now);
    let middle = shown_all(display, hits.commands);
    let after = shown_all(display, ticked(ledger, events, now, blocks, items).commands);
    lemma_hits_portrayed(ledger, display, events, events.len(), now, blocks, items, exact);
    lemma_shown_concat(display, hits.commands, rest.commands);
    lemma_released_shown(middle, hits.ledger.entries, now, hits.ledger.entries.len());
    lemma_swept_wf(hits.ledger, now);
    assert forall|q: BlockPosition|
        {
            &&& #[trigger] after.dom().contains(q) <==> (rest.ledger.entry(q) is Some
                && rest.ledger.entry(q)->0.proxy)
            &&& after.dom().contains(q) ==> fits(after[q], rest.ledger.entry(q)->0.progress, exact)
                && after[q] <= stage_of(rest.ledger.entry(q)->0.progress as int) <= 9
        } by {
        lemma_swept_entry(hits.ledger, now, q);
        assert(middle.dom().contains(q) <==> (hits.ledger.entry(q) is Some && hits.ledger.entry(
            q,
        )->0.proxy));
        let gone = exists|j: int|
            0 <= j < hits.ledger.entries.len() && (#[trigger] hits.ledger.entries[j]).position == q
                && retired(hits.ledger.entries[j], now) && hits.ledger.entries[j].proxy;
        assert(after.dom().contains(q) <==> (middle.dom().contains(q) && !gone));
        if hits.ledger.holds(q) {
            let slot = hits.ledger.slot(q);
            assert(hits.ledger.entries[slot].position == q);
            lemma_entry_at(hits.ledger, slot);
            if gone {
                let j = choose|j: int|
                    0 <= j < hits.ledger.entries.len() && (
                    #[trigger] hits.ledger.entries[j]).position == q && retired(
                        hits.ledger.entries[j],
                        now,
                    ) && hits.ledger.entries[j].proxy;
                lemma_entry_at(hits.ledger, j);
            }
        }
    }
}

/// Nothing is shown before the first hit: the empty display portrays the
/// state without entries.
pub proof fn law_nothing_shown_at_first(exact: bool)
    ensures
        portrays(Map::empty(), Ledger { entries: Seq::empty() }, exact),
{
}

} // verus!
