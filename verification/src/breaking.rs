//! The breaking state machine: one entry of progress for each block that is
//! being broken, driven by the hits of each tick.
//!
//! `Ledger` and the spec functions over it are the mathematical model;
//! `BreakingStore` is the executable store whose view is a `Ledger`.

use vstd::prelude::*;
use crate::config::{efficiency_of, Blocks, BlockId, Command, Held, Items, PlayerId, Tool};
use crate::grid::BlockPosition;
use crate::progress::{advanced, elapsed, gain, stage_change};
use crate::progress::{BURST_WINDOW, IDLE_TIMEOUT, PROGRESS_FULL};

verus! {

/// How far along one block is to breaking.
#[derive(Clone, Copy, Debug, PartialEq, Eq, Structural)]
pub struct BreakingEntry {
    pub position: BlockPosition,
    /// Whether a proxy at the position shows the damage; the entry that only
    /// guards an instantly broken block against a second hit in the same
    /// tick has none.
    pub proxy: bool,
    /// Millionths of the whole.
    pub progress: u32,
    /// Time of the last hit, in microseconds.
    pub last_hit: u64,
}

/// A primary action that reached a block.
#[derive(Clone, Copy, Debug, PartialEq, Eq, Structural)]
pub struct BlockBreakingEvent {
    pub player: PlayerId,
    pub position: BlockPosition,
    /// The block that the host found at `position`.
    pub block: BlockId,
    /// What the player holds in the hand.
    pub held: Held,
}

/// The state of the breaking machine: its entries in the order in which they
/// were created.
pub struct Ledger {
    pub entries: Seq<BreakingEntry>,
}

/// A state together with the commands that led to it.
pub struct Outcome {
    pub ledger: Ledger,
    pub commands: Seq<Command>,
}

/// Where the block at one position stands in the course of breaking.
#[derive(Clone, Copy, Debug, PartialEq, Eq, Structural)]
pub enum Phase {
    /// Nobody is breaking the block.
    Absent,
    /// The block is being broken and has come this far, in millionths.
    Active(u32),
    /// The block is broken; its entry leaves with the next cleanup.
    Complete,
    /// The block was not hit for too long; its entry leaves with the next
    /// cleanup, and the progress made is lost.
    TimedOut,
}

/// The phase that `found`, the entry of a position or the lack of one,
/// stands for at time `now`.
pub open spec fn phase_of(found: Option<BreakingEntry>, now: u64) -> Phase {
    match found {
        None => Phase::Absent,
        Some(e) => if e.progress >= PROGRESS_FULL {
            Phase::Complete
        } else if expired(e, now) {
            Phase::TimedOut
        } else {
            Phase::Active(e.progress)
        },
    }
}

impl Ledger {
    /// Whether the block at `position` is being broken.
    pub open spec fn holds(self, position: BlockPosition) -> bool {
        exists|i: int|
            0 <= i < self.entries.len() && (#[trigger] self.entries[i]).position == position
    }

    /// The index of the entry for `position`.
    pub open spec fn slot(self, position: BlockPosition) -> int {
        choose|i: int|
            0 <= i < self.entries.len() && (#[trigger] self.entries[i]).position == position
    }

    /// The entry for `position`, if there is one.
    pub open spec fn entry(self, position: BlockPosition) -> Option<BreakingEntry> {
        if self.holds(position) {
            Some(self.entries[self.slot(position)])
        } else {
            None
        }
    }

    /// No position has two entries, and no progress exceeds the whole.
    pub open spec fn wf(self) -> bool {
        &&& forall|i: int, j: int|
            0 <= i < j < self.entries.len() ==> (#[trigger] self.entries[i]).position != (
            #[trigger] self.entries[j]).position
        &&& forall|i: int|
            0 <= i < self.entries.len() ==> (#[trigger] self.entries[i]).progress
                <= PROGRESS_FULL
    }

    /// Every block that has an entry still stands.
    pub open spec fn settled(self) -> bool {
        forall|i: int|
            0 <= i < self.entries.len() ==> (#[trigger] self.entries[i]).progress
                < PROGRESS_FULL
    }

    /// The phase of the block at `position` at time `now`.
    pub open spec fn phase(self, position: BlockPosition, now: u64) -> Phase {
        phase_of(self.entry(position), now)
    }

    /// The state with the entry at `index` replaced.
    pub open spec fn with_entry(self, index: int, entry: BreakingEntry) -> Ledger {
        Ledger { entries: self.entries.update(index, entry) }
    }
}

/// The commands that destroy the block of `event` with `tool` in hand: the
/// block gives way to the empty block, and what it drops for that tool lands
/// at its position.
pub open spec fn destruction_with(event: BlockBreakingEvent, blocks: Blocks, tool: Option<Tool>) -> Seq<
    Command,
> {
    let gone = Command::SetBlock {
        position: event.position,
        block: blocks.empty,
        orientation: None,
    };
    match blocks.drop_for(event.block, tool) {
        Some(d) => seq![
            gone,
            Command::SpawnGroundItem { item: d.item, count: d.count, position: event.position },
        ],
        None => seq![gone],
    }
}

/// The commands that destroy the block of `event` with what its player holds.
pub open spec fn destruction(event: BlockBreakingEvent, blocks: Blocks, items: Items) -> Seq<
    Command,
> {
    destruction_with(event, blocks, items.tool_of(event.held))
}

/// The command that brings the proxy at `position` up to date after progress
/// went from `before` to `after`, if there is a proxy and a new stage was
/// reached.
pub open spec fn staging(proxy: bool, position: BlockPosition, before: int, after: int) -> Seq<
    Command,
> {
    match stage_change(before, after) {
        Some(k) => if proxy {
            seq![Command::ShowStage { position, stage: k }]
        } else {
            Seq::empty()
        },
        None => Seq::empty(),
    }
}

/// What becomes of a hit.
#[derive(Clone, Copy, Debug, PartialEq, Eq, Structural)]
pub enum Disposition {
    /// The hit counts: it creates an entry or updates one.
    Applied,
    /// The entry of the position was already hit at the same time.
    DuplicateSuppressed,
    /// The player lacks the state that a hit needs; a defect of the host.
    PreconditionViolation,
    /// The rules of the game reject the hit: the block cannot be broken.
    PolicyNoOp,
}

/// What becomes of the hit `event` at time `now`.
pub open spec fn disposition(
    ledger: Ledger,
    event: BlockBreakingEvent,
    now: u64,
    blocks: Blocks,
) -> Disposition {
    if ledger.entry(event.position) matches Some(e) && e.last_hit == now {
        Disposition::DuplicateSuppressed
    } else if event.held is Unknown {
        Disposition::PreconditionViolation
    } else if blocks.hardness(event.block) is None {
        Disposition::PolicyNoOp
    } else {
        Disposition::Applied
    }
}

/// The effect of one hit at time `now`.
///
/// A hit on an entry that was already hit at `now` is a duplicate and changes
/// nothing, and so does a hit by a player whose hand is unknown or on a block
/// without hardness. A first hit creates an entry: at full progress, with the
/// block destroyed, where the hardness is zero; else at zero, with a hidden
/// proxy. A further hit within the burst window only moves the time of the
/// last hit; a later one adds the progress gained in between, shows a newly
/// reached stage, and destroys the block once progress is whole.
pub open spec fn struck(
    ledger: Ledger,
    event: BlockBreakingEvent,
    now: u64,
    blocks: Blocks,
    items: Items,
) -> Outcome {
    let idle = Outcome { ledger, commands: Seq::empty() };
    let found = ledger.entry(event.position);
    if found matches Some(e) && e.last_hit == now {
        idle
    } else if event.held is Unknown {
        idle
    } else {
        match (blocks.hardness(event.block), found) {
            (None, _) => idle,
            (Some(h), Some(e)) => {
                let gap = elapsed(e.last_hit as int, now as int);
                if gap <= BURST_WINDOW {
                    Outcome {
                        ledger: ledger.with_entry(
                            ledger.slot(event.position),
                            BreakingEntry {
                                position: e.position,
                                proxy: e.proxy,
                                progress: e.progress,
                                last_hit: now,
                            },
                        ),
                        commands: Seq::empty(),
                    }
                } else {
                    let progress = advanced(
                        e.progress as int,
                        gain(gap, h as int, efficiency_of(items.tool_of(event.held))),
                    );
                    Outcome {
                        ledger: ledger.with_entry(
                            ledger.slot(event.position),
                            BreakingEntry {
                                position: e.position,
                                proxy: e.proxy,
                                progress: progress as u32,
                                last_hit: now,
                            },
                        ),
                        commands: if progress >= PROGRESS_FULL {
                            destruction(event, blocks, items)
                        } else {
                            staging(e.proxy, e.position, e.progress as int, progress)
                        },
                    }
                }
            },
            (Some(h), None) => if h == 0 {
                Outcome {
                    ledger: Ledger {
                        entries: ledger.entries.push(
                            BreakingEntry {
                                position: event.position,
                                proxy: false,
                                progress: PROGRESS_FULL,
                                last_hit: now,
                            },
                        ),
                    },
                    commands: destruction(event, blocks, items),
                }
            } else {
                Outcome {
                    ledger: Ledger {
                        entries: ledger.entries.push(
                            BreakingEntry {
                                position: event.position,
                                proxy: true,
                                progress: 0,
                                last_hit: now,
                            },
                        ),
                    },
                    commands: seq![Command::SpawnProxy { position: event.position }],
                }
            },
        }
    }
}

/// The effect of the first `count` hits of `events`, in order, all at `now`.
pub open spec fn struck_all(
    ledger: Ledger,
    events: Seq<BlockBreakingEvent>,
    count: nat,
    now: u64,
    blocks: Blocks,
    items: Items,
) -> Outcome
    decreases count,
{
    if count == 0 {
        Outcome { ledger, commands: Seq::empty() }
    } else {
        let before = struck_all(ledger, events, (count - 1) as nat, now, blocks, items);
        let step = struck(before.ledger, events[count - 1], now, blocks, items);
        Outcome { ledger: step.ledger, commands: before.commands + step.commands }
    }
}

/// Whether `entry` was last hit more than the idle timeout before `now`.
pub open spec fn expired(entry: BreakingEntry, now: u64) -> bool {
    elapsed(entry.last_hit as int, now as int) > IDLE_TIMEOUT
}

/// Whether the cleanup at `now` drops `entry`: it timed out, or its block is
/// broken.
pub open spec fn retired(entry: BreakingEntry, now: u64) -> bool {
    expired(entry, now) || entry.progress >= PROGRESS_FULL
}

/// Those of the first `count` entries that the cleanup at `now` keeps.
pub open spec fn kept_upto(entries: Seq<BreakingEntry>, now: u64, count: nat) -> Seq<
    BreakingEntry,
>
    decreases count,
{
    if count == 0 {
        Seq::empty()
    } else {
        let before = kept_upto(entries, now, (count - 1) as nat);
        if retired(entries[count - 1], now) {
            before
        } else {
            before.push(entries[count - 1])
        }
    }
}

/// The commands that remove the proxies of those of the first `count`
/// entries that the cleanup at `now` drops.
pub open spec fn released_upto(entries: Seq<BreakingEntry>, now: u64, count: nat) -> Seq<
    Command,
>
    decreases count,
{
    if count == 0 {
        Seq::empty()
    } else {
        let before = released_upto(entries, now, (count - 1) as nat);
        if retired(entries[count - 1], now) {
            if entries[count - 1].proxy {
                before.push(Command::DespawnProxy { position: entries[count - 1].position })
            } else {
                before
            }
        } else {
            before
        }
    }
}

/// The effect of the cleanup at `now`: retired entries leave, with their
/// proxies; the others stay in order.
pub open spec fn swept(ledger: Ledger, now: u64) -> Outcome {
    Outcome {
        ledger: Ledger { entries: kept_upto(ledger.entries, now, ledger.entries.len()) },
        commands: released_upto(ledger.entries, now, ledger.entries.len()),
    }
}

/// The effect of one tick at `now`: every hit in order, then the cleanup.
pub open spec fn ticked(
    ledger: Ledger,
    events: Seq<BlockBreakingEvent>,
    now: u64,
    blocks: Blocks,
    items: Items,
) -> Outcome {
    let hits = struck_all(ledger, events, events.len(), now, blocks, items);
    let rest = swept(hits.ledger, now);
    Outcome { ledger: rest.ledger, commands: hits.commands + rest.commands }
}

/// The indices, among the first `count` entries, of those that the cleanup
/// at `now` keeps.
pub open spec fn kept_slots(entries: Seq<BreakingEntry>, now: u64, count: nat) -> Seq<int>
    decreases count,
{
    if count == 0 {
        Seq::empty()
    } else {
        let before = kept_slots(entries, now, (count - 1) as nat);
        if retired(entries[count - 1], now) {
            before
        } else {
            before.push(count - 1)
        }
    }
}

/// The kept entries are the entries at the kept indices, which rise, and
/// none of them is retired.
pub proof fn lemma_kept_slots(entries: Seq<BreakingEntry>, now: u64, count: nat)
    requires
        count <= entries.len(),
    ensures
        kept_slots(entries, now, count).len() == kept_upto(entries, now, count).len(),
        kept_upto(entries, now, count).len() <= count,
        forall|k: int|
            0 <= k < kept_slots(entries, now, count).len() ==> {
                &&& 0 <= (#[trigger] kept_slots(entries, now, count)[k]) < count
                &&& kept_upto(entries, now, count)[k] == entries[kept_slots(
                    entries,
                    now,
                    count,
                )[k]]
                &&& !retired(kept_upto(entries, now, count)[k], now)
            },
        forall|k: int, l: int|
            0 <= k < l < kept_slots(entries, now, count).len() ==> (#[trigger] kept_slots(
                entries,
                now,
                count,
            )[k]) < (#[trigger] kept_slots(entries, now, count)[l]),
        forall|j: int|
            0 <= j < count && !retired(entries[j], now) ==> kept_upto(
                entries,
                now,
                count,
            ).contains(#[trigger] entries[j]),
    decreases count,
{
    if count > 0 {
        let less = (count - 1) as nat;
        lemma_kept_slots(entries, now, less);
        let before = kept_upto(entries, now, less);
        let after = kept_upto(entries, now, count);
        assert forall|j: int| 0 <= j < count && !retired(entries[j], now) implies after.contains(
            #[trigger] entries[j],
        ) by {
            if j < less {
                let k = choose|k: int| 0 <= k < before.len() && before[k] == entries[j];
                assert(after[k] == entries[j]);
            } else {
                assert(after[after.len() - 1] == entries[j]);
            }
        }
    }
}

/// Whether `command` removes the proxy of an entry that the cleanup at `now`
/// drops.
pub open spec fn releases(command: Command, entries: Seq<BreakingEntry>, now: u64) -> bool {
    exists|j: int|
        0 <= j < entries.len() && retired(#[trigger] entries[j], now) && entries[j].proxy
            && command == (Command::DespawnProxy { position: entries[j].position })
}

/// Every command of a cleanup removes the proxy of a retired entry.
pub proof fn lemma_released_are_despawns(entries: Seq<BreakingEntry>, now: u64, count: nat)
    requires
        count <= entries.len(),
    ensures
        forall|k: int|
            0 <= k < released_upto(entries, now, count).len() ==> releases(
                #[trigger] released_upto(entries, now, count)[k],
                entries,
                now,
            ),
    decreases count,
{
    if count > 0 {
        let less = (count - 1) as nat;
        lemma_released_are_despawns(entries, now, less);
        let before = released_upto(entries, now, less);
        let after = released_upto(entries, now, count);
        assert forall|k: int| 0 <= k < after.len() implies releases(
            #[trigger] after[k],
            entries,
            now,
        ) by {
            if k < before.len() {
                assert(after[k] == before[k]);
            } else {
                assert(retired(entries[count - 1], now));
            }
        }
    }
}

/// The cleanup keeps a well-formed state well-formed, and leaves it settled.
pub proof fn lemma_swept_wf(ledger: Ledger, now: u64)
    requires
        ledger.wf(),
    ensures
        swept(ledger, now).ledger.wf(),
        swept(ledger, now).ledger.settled(),
        swept(ledger, now).ledger.entries.len() <= ledger.entries.len(),
{
    let n = ledger.entries.len();
    lemma_kept_slots(ledger.entries, now, n);
    let kept = kept_upto(ledger.entries, now, n);
    let slots = kept_slots(ledger.entries, now, n);
    assert forall|i: int, j: int| 0 <= i < j < kept.len() implies (#[trigger] kept[i]).position
        != (#[trigger] kept[j]).position by {
        assert(slots[i] < slots[j]);
        assert(kept[i] == ledger.entries[slots[i]]);
        assert(kept[j] == ledger.entries[slots[j]]);
    }
    assert forall|i: int| 0 <= i < kept.len() implies (#[trigger] kept[i]).progress
        < PROGRESS_FULL by {
        assert(kept[i] == ledger.entries[slots[i]]);
        assert(!retired(kept[i], now));
    }
}

/// In a well-formed state the entry at an index is the entry of its position.
pub proof fn lemma_entry_at(ledger: Ledger, index: int)
    requires
        ledger.wf(),
        0 <= index < ledger.entries.len(),
    ensures
        ledger.holds(ledger.entries[index].position),
        ledger.slot(ledger.entries[index].position) == index,
        ledger.entry(ledger.entries[index].position) == Some(ledger.entries[index]),
{
    let position = ledger.entries[index].position;
    assert(ledger.holds(position));
    let chosen = ledger.slot(position);
    assert(ledger.entries[chosen].position == position);
    if chosen < index {
        assert(ledger.entries[chosen].position != ledger.entries[index].position);
    }
    if index < chosen {
        assert(ledger.entries[index].position != ledger.entries[chosen].position);
    }
}

/// A position without an entry differs from the position of every entry.
pub proof fn lemma_absent(ledger: Ledger, position: BlockPosition)
    requires
        !ledger.holds(position),
    ensures
        forall|i: int|
            0 <= i < ledger.entries.len() ==> (#[trigger] ledger.entries[i]).position
                != position,
{
}

/// One hit keeps a well-formed state well-formed and touches no entry but
/// that of its own position: an entry that was there keeps its place, a new
/// one goes last.
pub proof fn lemma_struck_frame(
    ledger: Ledger,
    event: BlockBreakingEvent,
    now: u64,
    blocks: Blocks,
    items: Items,
)
    requires
        ledger.wf(),
    ensures
        struck(ledger, event, now, blocks, items).ledger.wf(),
        ledger.entries.len() <= struck(ledger, event, now, blocks, items).ledger.entries.len()
            <= ledger.entries.len() + 1,
        forall|i: int|
            0 <= i < ledger.entries.len() && i != ledger.slot(event.position) ==> struck(
                ledger,
                event,
                now,
                blocks,
                items,
            ).ledger.entries[i] == #[trigger] ledger.entries[i],
        forall|i: int|
            0 <= i < ledger.entries.len() ==> (#[trigger] struck(
                ledger,
                event,
                now,
                blocks,
                items,
            ).ledger.entries[i]).position == ledger.entries[i].position,
        forall|q: BlockPosition|
            q != event.position ==> #[trigger] struck(ledger, event, now, blocks, items).ledger.entry(
                q,
            ) == ledger.entry(q),
        ledger.holds(event.position) ==> struck(ledger, event, now, blocks, items).ledger.entry(
            event.position,
        ) == Some(
            struck(ledger, event, now, blocks, items).ledger.entries[ledger.slot(event.position)],
        ),
        !ledger.holds(event.position) ==> struck(ledger, event, now, blocks, items).ledger.entry(
            event.position,
        ) == if struck(ledger, event, now, blocks, items).ledger.entries.len()
            == ledger.entries.len() {
            None
        } else {
            Some(struck(ledger, event, now, blocks, items).ledger.entries.last())
        },
{
    let out = struck(ledger, event, now, blocks, items).ledger;
    let p = event.position;
    if ledger.holds(p) {
        let slot = ledger.slot(p);
        assert(ledger.entries[slot].position == p);
        assert(out.entries.len() == ledger.entries.len());
        assert(forall|i: int|
            0 <= i < out.entries.len() ==> (#[trigger] out.entries[i]).position
                == ledger.entries[i].position);
        assert(out.wf()) by {
            assert forall|i: int, j: int| 0 <= i < j < out.entries.len() implies (
            #[trigger] out.entries[i]).position != (#[trigger] out.entries[j]).position by {
                assert(ledger.entries[i].position != ledger.entries[j].position);
            }
            assert forall|i: int| 0 <= i < out.entries.len() implies (
            #[trigger] out.entries[i]).progress <= PROGRESS_FULL by {
                assert(ledger.entries[i].progress <= PROGRESS_FULL);
            }
        }
        lemma_entry_at(out, slot);
        assert forall|q: BlockPosition| q != p implies #[trigger] out.entry(q) == ledger.entry(
            q,
        ) by {
            if ledger.holds(q) {
                let j = ledger.slot(q);
                assert(ledger.entries[j].position == q);
                lemma_entry_at(ledger, j);
                lemma_entry_at(out, j);
            } else {
                lemma_absent(ledger, q);
                if out.holds(q) {
                    let j = out.slot(q);
                    assert(out.entries[j].position == q);
                    assert(ledger.entries[j].position == q);
                }
            }
        }
    } else {
        lemma_absent(ledger, p);
        if out.entries.len() == ledger.entries.len() {
            assert(out == ledger);
        } else {
            let last = ledger.entries.len() as int;
            assert(out.entries.len() == last + 1);
            assert(forall|i: int| 0 <= i < last ==> out.entries[i] == ledger.entries[i]);
            assert(out.entries[last].position == p);
            assert(out.wf()) by {
                assert forall|i: int, j: int| 0 <= i < j < out.entries.len() implies (
                #[trigger] out.entries[i]).position != (#[trigger] out.entries[j]).position by {
                    if j < last {
                        assert(ledger.entries[i].position != ledger.entries[j].position);
                    } else {
                        assert(ledger.entries[i].position != p);
                    }
                }
                assert forall|i: int| 0 <= i < out.entries.len() implies (
                #[trigger] out.entries[i]).progress <= PROGRESS_FULL by {
                    if i < last {
                        assert(ledger.entries[i].progress <= PROGRESS_FULL);
                    }
                }
            }
            lemma_entry_at(out, last);
        }
        assert forall|q: BlockPosition| q != p implies #[trigger] out.entry(q) == ledger.entry(
            q,
        ) by {
            if ledger.holds(q) {
                let j = ledger.slot(q);
                assert(ledger.entries[j].position == q);
                lemma_entry_at(ledger, j);
                assert(out.entries[j] == ledger.entries[j]);
                lemma_entry_at(out, j);
            } else {
                lemma_absent(ledger, q);
                if out.holds(q) {
                    let j = out.slot(q);
                    assert(out.entries[j].position == q);
                    if j < ledger.entries.len() {
                        assert(ledger.entries[j].position == q);
                    }
                }
            }
        }
        if out.entries.len() == ledger.entries.len() {
            assert(!out.holds(p));
        }
    }
}

/// After the cleanup a position has the entry it had before, unless that
/// entry was retired.
pub proof fn lemma_swept_entry(ledger: Ledger, now: u64, position: BlockPosition)
    requires
        ledger.wf(),
    ensures
        swept(ledger, now).ledger.entry(position) == match ledger.entry(position) {
            Some(e) => if retired(e, now) {
                None
            } else {
                Some(e)
            },
            None => None,
        },
{
    let n = ledger.entries.len();
    let out = swept(ledger, now).ledger;
    let slots = kept_slots(ledger.entries, now, n);
    lemma_kept_slots(ledger.entries, now, n);
    lemma_swept_wf(ledger, now);
    if out.holds(position) {
        let k = out.slot(position);
        assert(out.entries[k].position == position);
        assert(out.entries[k] == ledger.entries[slots[k]]);
        lemma_entry_at(ledger, slots[k]);
        lemma_entry_at(out, k);
    } else {
        lemma_absent(out, position);
        if ledger.holds(position) {
            let j = ledger.slot(position);
            assert(ledger.entries[j].position == position);
            if !retired(ledger.entries[j], now) {
                assert(out.entries.contains(ledger.entries[j]));
                let k = choose|k: int|
                    0 <= k < out.entries.len() && out.entries[k] == ledger.entries[j];
                assert(out.entries[k].position == position);
            }
        }
    }
}

} // verus!
