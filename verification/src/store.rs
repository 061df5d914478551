//! The executable breaking store and the tick that drives it.

use vstd::prelude::*;
use crate::breaking::{disposition, BlockBreakingEvent, BreakingEntry, Disposition, Ledger, Phase};
use crate::breaking::{kept_upto, released_upto, struck, struck_all, swept, ticked};
use crate::breaking::{lemma_swept_wf};
use crate::config::{tool_efficiency, Blocks, Command, Held, Items, Tool};
use crate::grid::BlockPosition;
use crate::progress::{advance, elapsed_since, next_stage, progress_gain};
use crate::progress::{BURST_WINDOW, IDLE_TIMEOUT, PROGRESS_FULL};

verus! {

/// The breaking progress of every block that is being broken. Owned by the
/// tick that drives it; nothing else writes it.
///
/// The entries are kept in the order in which they were created, so that the
/// cleanup walks them, and issues its commands, in an order that does not
/// change from run to run.
pub struct BreakingStore {
    entries: Vec<BreakingEntry>,
}

impl View for BreakingStore {
    type V = Ledger;

    closed spec fn view(&self) -> Ledger {
        Ledger { entries: self.entries@ }
    }
}

impl BreakingStore {
    /// The store's invariant: its state is well-formed.
    pub open spec fn wf(&self) -> bool {
        self@.wf()
    }

    /// A store without entries.
    pub fn new() -> (r: Self)
        ensures
            r.wf(),
            r@.entries.len() == 0,
            r@.settled(),
    {
        BreakingStore { entries: Vec::new() }
    }

    /// The number of blocks that are being broken.
    pub fn len(&self) -> (r: usize)
        ensures
            r == self@.entries.len(),
    {
        self.entries.len()
    }

    /// The entry at `index`, counting in the order of creation.
    pub fn entry_at(&self, index: usize) -> (r: Option<BreakingEntry>)
        ensures
            r == if index < self@.entries.len() {
                Some(self@.entries[index as int])
            } else {
                None
            },
    {
        if index < self.entries.len() {
            Some(self.entries[index])
        } else {
            None
        }
    }

    /// The entry for the block at `position`, if it is being broken.
    pub fn get(&self, position: BlockPosition) -> (r: Option<BreakingEntry>)
        requires
            self.wf(),
        ensures
            r == self@.entry(position),
    {
        match self.find(position) {
            Some(index) => Some(self.entries[index]),
            None => None,
        }
    }

    /// Where the block at `position` stands at time `now`.
    pub fn phase(&self, position: BlockPosition, now: u64) -> (r: Phase)
        requires
            self.wf(),
        ensures
            r == self@.phase(position, now),
    {
        match self.get(position) {
            None => Phase::Absent,
            Some(entry) => if entry.progress >= PROGRESS_FULL {
                Phase::Complete
            } else if elapsed_since(entry.last_hit, now) > IDLE_TIMEOUT {
                Phase::TimedOut
            } else {
                Phase::Active(entry.progress)
            },
        }
    }

    fn find(&self, position: BlockPosition) -> (r: Option<usize>)
        requires
            self.wf(),
        ensures
            r is Some <==> self@.holds(position),
            r matches Some(i) ==> i < self@.entries.len() && self@.slot(position) == i
                && self@.entries[i as int].position == position,
    {
        let mut index: usize = 0;
        while index < self.entries.len()
            invariant
                self.wf(),
                index <= self.entries@.len(),
                forall|j: int| 0 <= j < index ==> (#[trigger] self.entries@[j]).position != position,
            decreases self.entries@.len() - index,
        {
            if self.entries[index].position == position {
                proof {
                    let chosen = self@.slot(position);
                    assert(self@.entries[index as int].position == position);
                    assert(self@.entries[chosen].position == position);
                    if chosen < index {
                        assert(self@.entries[chosen].position != self@.entries[index as int].position);
                    }
                    if chosen > index {
                        assert(self@.entries[index as int].position != self@.entries[chosen].position);
                    }
                }
                return Some(index);
            }
            index = index + 1;
        }
        None
    }

    /// Tells what becomes of the hit `event` at time `now`, so that the host
    /// can report the hits that are dropped.
    pub fn classify(&self, event: &BlockBreakingEvent, now: u64, blocks: &Blocks) -> (r:
        Disposition)
        requires
            self.wf(),
        ensures
            r == disposition(self@, *event, now, *blocks),
    {
        if let Some(entry) = self.get(event.position) {
            if entry.last_hit == now {
                return Disposition::DuplicateSuppressed;
            }
        }
        if let Held::Unknown = event.held {
            return Disposition::PreconditionViolation;
        }
        match blocks.hardness_of(event.block) {
            Some(_) => Disposition::Applied,
            None => Disposition::PolicyNoOp,
        }
    }

    /// Applies one hit at time `now` and returns the commands it causes.
    pub fn strike(
        &mut self,
        event: &BlockBreakingEvent,
        now: u64,
        blocks: &Blocks,
        items: &Items,
    ) -> (commands: Vec<Command>)
        requires
            old(self).wf(),
        ensures
            final(self).wf(),
            final(self)@ == struck(old(self)@, *event, now, *blocks, *items).ledger,
            commands@ == struck(old(self)@, *event, now, *blocks, *items).commands,
    {
        let mut commands: Vec<Command> = Vec::new();
        let found = self.find(event.position);
        if let Some(index) = found {
            if self.entries[index].last_hit == now {
                return commands;
            }
        }
        if let Held::Unknown = event.held {
            return commands;
        }
        let hardness: u32 = match blocks.hardness_of(event.block) {
            Some(h) => h,
            None => {
                return commands;
            },
        };
        let tool: Option<Tool> = items.active_tool(event.held);
        match found {
            Some(index) => {
                let entry: BreakingEntry = self.entries[index];
                let gap: u64 = elapsed_since(entry.last_hit, now);
                if gap <= BURST_WINDOW {
                    self.entries.set(
                        index,
                        BreakingEntry {
                            position: entry.position,
                            proxy: entry.proxy,
                            progress: entry.progress,
                            last_hit: now,
                        },
                    );
                } else {
                    let step: u32 = progress_gain(gap, hardness, tool_efficiency(tool));
                    let progress: u32 = advance(entry.progress, step);
                    self.entries.set(
                        index,
                        BreakingEntry {
                            position: entry.position,
                            proxy: entry.proxy,
                            progress,
                            last_hit: now,
                        },
                    );
                    if progress >= PROGRESS_FULL {
                        destroy(event, blocks, tool, &mut commands);
                    } else {
                        if let Some(reached) = next_stage(entry.progress, progress) {
                            if entry.proxy {
                                commands.push(
                                    Command::ShowStage { position: entry.position, stage: reached },
                                );
                            }
                        }
                    }
                }
            },
            None => {
                if hardness == 0 {
                    self.entries.push(
                        BreakingEntry {
                            position: event.position,
                            proxy: false,
                            progress: PROGRESS_FULL,
                            last_hit: now,
                        },
                    );
                    destroy(event, blocks, tool, &mut commands);
                } else {
                    self.entries.push(
                        BreakingEntry {
                            position: event.position,
                            proxy: true,
                            progress: 0,
                            last_hit: now,
                        },
                    );
                    commands.push(Command::SpawnProxy { position: event.position });
                }
            },
        }
        proof {
            let model = struck(old(self)@, *event, now, *blocks, *items);
            assert(self@.entries =~= model.ledger.entries);
            assert(commands@ =~= model.commands);
        }
        commands
    }

    /// Drops the entries that timed out or whose block is broken, and returns
    /// the commands that remove their proxies.
    pub fn sweep(&mut self, now: u64) -> (commands: Vec<Command>)
        requires
            old(self).wf(),
        ensures
            final(self).wf(),
            final(self)@.settled(),
            final(self)@ == swept(old(self)@, now).ledger,
            commands@ == swept(old(self)@, now).commands,
    {
        let mut kept: Vec<BreakingEntry> = Vec::new();
        let mut commands: Vec<Command> = Vec::new();
        let mut index: usize = 0;
        while index < self.entries.len()
            invariant
                index <= self.entries@.len(),
                kept@ == kept_upto(self.entries@, now, index as nat),
                commands@ == released_upto(self.entries@, now, index as nat),
            decreases self.entries@.len() - index,
        {
            let entry: BreakingEntry = self.entries[index];
            let timed_out: bool = elapsed_since(entry.last_hit, now) > IDLE_TIMEOUT;
            let broken: bool = entry.progress >= PROGRESS_FULL;
            if timed_out || broken {
                if entry.proxy {
                    commands.push(Command::DespawnProxy { position: entry.position });
                }
            } else {
                kept.push(entry);
            }
            index = index + 1;
        }
        proof {
            lemma_swept_wf(self@, now);
        }
        self.entries = kept;
        commands
    }
}

/// Appends the commands that destroy the block of `event`.
fn destroy(
    event: &BlockBreakingEvent,
    blocks: &Blocks,
    tool: Option<Tool>,
    commands: &mut Vec<Command>,
)
    ensures
        final(commands)@ == old(commands)@ + crate::breaking::destruction_with(
            *event,
            *blocks,
            tool,
        ),
{
    commands.push(
        Command::SetBlock { position: event.position, block: blocks.empty, orientation: None },
    );
    if let Some(found) = blocks.resolve_drop(event.block, tool) {
        commands.push(
            Command::SpawnGroundItem {
                item: found.item,
                count: found.count,
                position: event.position,
            },
        );
    }
    assert(commands@ =~= old(commands)@ + crate::breaking::destruction_with(
        *event,
        *blocks,
        tool,
    ));
}

/// Runs the breaking machine for one tick at time `now`: applies the hits of
/// `events` in order, then drops the entries that timed out or whose block is
/// broken. Returns the commands for the host, in the order in which they
/// arose.
pub fn break_blocks(
    store: &mut BreakingStore,
    events: &Vec<BlockBreakingEvent>,
    now: u64,
    blocks: &Blocks,
    items: &Items,
) -> (commands: Vec<Command>)
    requires
        old(store).wf(),
    ensures
        final(store).wf(),
        final(store)@.settled(),
        final(store)@ == ticked(old(store)@, events@, now, *blocks, *items).ledger,
        commands@ == ticked(old(store)@, events@, now, *blocks, *items).commands,
{
    let mut commands: Vec<Command> = Vec::new();
    let mut index: usize = 0;
    while index < events.len()
        invariant
            index <= events@.len(),
            store.wf(),
            store@ == struck_all(old(store)@, events@, index as nat, now, *blocks, *items).ledger,
            commands@ == struck_all(
                old(store)@,
                events@,
                index as nat,
                now,
                *blocks,
                *items,
            ).commands,
        decreases events@.len() - index,
    {
        let mut step = store.strike(&events[index], now, blocks, items);
        commands.append(&mut step);
        index = index + 1;
    }
    let mut rest = store.sweep(now);
    commands.append(&mut rest);
    commands
}

} // verus!
