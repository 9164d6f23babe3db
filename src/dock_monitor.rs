//! The presence monitor: reconciles hardware appeared/removed notifications
//! for the tracked peripheral into enable/disable requests for the companion
//! session.

use vstd::prelude::*;

verus! {

/// What the monitor asks of the companion session after one hardware item.
#[derive(Clone, Copy, Debug, PartialEq, Eq, Structural)]
pub enum SessionCommand {
    Enable,
    Disable,
}

/// Whether a hardware item's identifier names the tracked peripheral.
pub fn matches_identifier(event_value: Option<u64>, target: u64) -> (r: bool)
    ensures
        r == (event_value == Some(target)),
        event_value is None ==> !r,
{
    match event_value {
        Some(v) => v == target,
        None => false,
    }
}

/// The reaction to one hardware item: the next value of the "session active"
/// flag, and the command issued, if any.
pub open spec fn item_step(active: bool, target: u64, appeared: bool, value: Option<u64>) -> (
    bool,
    Option<SessionCommand>,
) {
    if value == Some(target) {
        if appeared {
            (true, Some(SessionCommand::Enable))
        } else {
            (false, Some(SessionCommand::Disable))
        }
    } else if !appeared && value is None && active {
        (false, Some(SessionCommand::Disable))
    } else {
        (active, None)
    }
}

/// The commands a step adds to those issued so far.
pub open spec fn with_command(cmds: Seq<SessionCommand>, c: Option<SessionCommand>) -> Seq<
    SessionCommand,
> {
    match c {
        Some(x) => cmds.push(x),
        None => cmds,
    }
}

/// Draining one notification batch item by item, in delivery order: the final
/// flag and the commands issued in order.
pub open spec fn batch_steps(active: bool, target: u64, appeared: bool, values: Seq<Option<u64>>) -> (
    bool,
    Seq<SessionCommand>,
)
    decreases values.len(),
{
    if values.len() == 0 {
        (active, Seq::empty())
    } else {
        let (a, cmds) = batch_steps(active, target, appeared, values.drop_last());
        let (a2, c) = item_step(a, target, appeared, values.last());
        (a2, with_command(cmds, c))
    }
}

/// A run over several batches, each given as its direction (appeared or
/// removed) and the identifiers of its items.
pub open spec fn run_batches(active: bool, target: u64, batches: Seq<(bool, Seq<Option<u64>>)>) -> (
    bool,
    Seq<SessionCommand>,
)
    decreases batches.len(),
{
    if batches.len() == 0 {
        (active, Seq::empty())
    } else {
        let (a, cmds) = run_batches(active, target, batches.drop_last());
        let (a2, more) = batch_steps(a, target, batches.last().0, batches.last().1);
        (a2, cmds + more)
    }
}

/// Whether some item of a batch has the given identifier.
pub open spec fn batch_has(values: Seq<Option<u64>>, v: Option<u64>) -> bool {
    exists|i: int| 0 <= i < values.len() && values[i] == v
}

/// A batch in which no item names the tracked peripheral changes nothing and
/// asks for nothing, while no session is believed active.
pub proof fn lemma_unmatched_batch_is_inert(target: u64, appeared: bool, values: Seq<Option<u64>>)
    requires
        !batch_has(values, Some(target)),
    ensures
        batch_steps(false, target, appeared, values) == (false, Seq::<SessionCommand>::empty()),
    decreases values.len(),
{
    if values.len() > 0 {
        let p = values.drop_last();
        assert(!batch_has(p, Some(target))) by {
            if batch_has(p, Some(target)) {
                let i = choose|i: int| 0 <= i < p.len() && p[i] == Some(target);
                assert(values[i] == Some(target));
            }
        }
        lemma_unmatched_batch_is_inert(target, appeared, p);
        assert(values.last() != Some(target)) by {
            assert(values[values.len() - 1] == values.last());
        }
    }
}

/// Starting with no session active, any sequence of appeared and removed
/// batches in which no item names the tracked peripheral leaves the monitor
/// inactive and issues no enable or disable request.
pub proof fn lemma_unmatched_events_are_inert(target: u64, batches: Seq<(bool, Seq<Option<u64>>)>)
    requires
        forall|b: int| 0 <= b < batches.len() ==> !batch_has(#[trigger] batches[b].1, Some(target)),
    ensures
        run_batches(false, target, batches) == (false, Seq::<SessionCommand>::empty()),
    decreases batches.len(),
{
    if batches.len() > 0 {
        let p = batches.drop_last();
        assert forall|b: int| 0 <= b < p.len() implies !batch_has(#[trigger] p[b].1, Some(target)) by {
            assert(p[b] == batches[b]);
        }
        lemma_unmatched_events_are_inert(target, p);
        assert(batches.last() == batches[batches.len() - 1]);
        lemma_unmatched_batch_is_inert(target, batches.last().0, batches.last().1);
        assert(Seq::<SessionCommand>::empty() + Seq::<SessionCommand>::empty() == Seq::<
            SessionCommand,
        >::empty());
    }
}

proof fn lemma_appeared_without_match(active: bool, target: u64, values: Seq<Option<u64>>)
    requires
        !batch_has(values, Some(target)),
    ensures
        batch_steps(active, target, true, values) == (active, Seq::<SessionCommand>::empty()),
    decreases values.len(),
{
    if values.len() > 0 {
        let p = values.drop_last();
        assert(!batch_has(p, Some(target))) by {
            if batch_has(p, Some(target)) {
                let i = choose|i: int| 0 <= i < p.len() && p[i] == Some(target);
                assert(values[i] == Some(target));
            }
        }
        lemma_appeared_without_match(active, target, p);
        assert(values.last() != Some(target)) by {
            assert(values[values.len() - 1] == values.last());
        }
    }
}

/// An appeared batch in which exactly one item names the tracked peripheral
/// issues exactly one enable request and leaves the session believed active.
pub proof fn lemma_single_match_enables(active: bool, target: u64, values: Seq<Option<u64>>, k: int)
    requires
        0 <= k < values.len(),
        values[k] == Some(target),
        forall|j: int| 0 <= j < values.len() && j != k ==> values[j] != Some(target),
    ensures
        batch_steps(active, target, true, values) == (true, seq![SessionCommand::Enable]),
    decreases values.len(),
{
    let p = values.drop_last();
    if k == values.len() - 1 {
        assert(!batch_has(p, Some(target))) by {
            if batch_has(p, Some(target)) {
                let i = choose|i: int| 0 <= i < p.len() && p[i] == Some(target);
                assert(values[i] == Some(target));
            }
        }
        lemma_appeared_without_match(active, target, p);
        assert(Seq::<SessionCommand>::empty().push(SessionCommand::Enable) == seq![
            SessionCommand::Enable,
        ]);
    } else {
        assert forall|j: int| 0 <= j < p.len() && j != k implies p[j] != Some(target) by {
            assert(p[j] == values[j]);
        }
        lemma_single_match_enables(active, target, p, k);
        assert(values.last() != Some(target)) by {
            assert(values[values.len() - 1] == values.last());
        }
    }
}

proof fn lemma_removed_without_match(active: bool, target: u64, values: Seq<Option<u64>>)
    requires
        !batch_has(values, Some(target)),
    ensures
        batch_steps(active, target, false, values) == if active && batch_has(values, None) {
            (false, seq![SessionCommand::Disable])
        } else {
            (active, Seq::<SessionCommand>::empty())
        },
    decreases values.len(),
{
    if values.len() > 0 {
        let p = values.drop_last();
        assert(!batch_has(p, Some(target))) by {
            if batch_has(p, Some(target)) {
                let i = choose|i: int| 0 <= i < p.len() && p[i] == Some(target);
                assert(values[i] == Some(target));
            }
        }
        lemma_removed_without_match(active, target, p);
        assert(values.last() == values[values.len() - 1]);
        assert(batch_has(values, None) == (batch_has(p, None) || values.last() is None)) by {
            if batch_has(values, None) && !(values.last() is None) {
                let i = choose|i: int| 0 <= i < values.len() && values[i] == None::<u64>;
                assert(p[i] == values[i]);
            }
            if batch_has(p, None) {
                let i = choose|i: int| 0 <= i < p.len() && p[i] == None::<u64>;
                assert(p[i] == values[i]);
            }
        }
        assert(Seq::<SessionCommand>::empty().push(SessionCommand::Disable) == seq![
            SessionCommand::Disable,
        ]);
    }
}

/// With a session believed active, a removed batch holding an item whose
/// identifier could not be read, and no item naming the tracked peripheral,
/// issues exactly one disable request and leaves the session inactive.
pub proof fn lemma_unreadable_removal_disables(target: u64, values: Seq<Option<u64>>)
    requires
        batch_has(values, None),
        !batch_has(values, Some(target)),
    ensures
        batch_steps(true, target, false, values) == (false, seq![SessionCommand::Disable]),
{
    lemma_removed_without_match(true, target, values);
}

/// The mutable state of the reconciliation engine.
pub struct MonitorContext {
    dock_uid: u64,
    ipad_name: Option<String>,
    sidecar_active: bool,
}

impl MonitorContext {
    /// A fresh monitor: no session is believed active.
    pub fn new(dock_uid: u64, ipad_name: Option<String>) -> (r: Self)
        ensures
            r.target() == dock_uid,
            r.selector() == ipad_name,
            !r.active(),
    {
        MonitorContext { dock_uid, ipad_name, sidecar_active: false }
    }

    pub closed spec fn target(&self) -> u64 {
        self.dock_uid
    }

    pub closed spec fn selector(&self) -> Option<String> {
        self.ipad_name
    }

    pub closed spec fn active(&self) -> bool {
        self.sidecar_active
    }

    /// The identifier of the tracked peripheral.
    pub fn dock_uid(&self) -> (r: u64)
        ensures
            r == self.target(),
    {
        self.dock_uid
    }

    /// The companion device name to select, `None` for the first available.
    pub fn ipad_name(&self) -> (r: &Option<String>)
        ensures
            *r == self.selector(),
    {
        &self.ipad_name
    }

    /// Whether the monitor believes a session is enabled.
    pub fn sidecar_active(&self) -> (r: bool)
        ensures
            r == self.active(),
    {
        self.sidecar_active
    }

    /// React to one appeared or removed hardware item whose identifier is
    /// `value` (`None` when it could not be read).
    pub fn handle_item(&mut self, appeared: bool, value: Option<u64>) -> (r: Option<SessionCommand>)
        ensures
            final(self).target() == old(self).target(),
            final(self).selector() == old(self).selector(),
            (final(self).active(), r) == item_step(old(self).active(), old(self).target(), appeared, value),
    {
        if matches_identifier(value, self.dock_uid) {
            if appeared {
                self.sidecar_active = true;
                Some(SessionCommand::Enable)
            } else {
                self.sidecar_active = false;
                Some(SessionCommand::Disable)
            }
        } else if !appeared && value.is_none() && self.sidecar_active {
            self.sidecar_active = false;
            Some(SessionCommand::Disable)
        } else {
            None
        }
    }

    /// Drain a whole notification batch in delivery order, returning the
    /// commands to issue, in order.
    pub fn handle_batch(&mut self, appeared: bool, values: &Vec<Option<u64>>) -> (r: Vec<SessionCommand>)
        ensures
            final(self).target() == old(self).target(),
            final(self).selector() == old(self).selector(),
            (final(self).active(), r@) == batch_steps(old(self).active(), old(self).target(), appeared, values@),
    {
        let mut cmds: Vec<SessionCommand> = Vec::new();
        let mut i: usize = 0;
        while i < values.len()
            invariant
                i <= values@.len(),
                self.target() == old(self).target(),
                self.selector() == old(self).selector(),
                (self.active(), cmds@) == batch_steps(old(self).active(), old(self).target(), appeared, values@.subrange(0, i as int)),
            decreases values@.len() - i,
        {
            let ghost prefix = values@.subrange(0, i + 1);
            assert(prefix.drop_last() == values@.subrange(0, i as int));
            match self.handle_item(appeared, values[i]) {
                Some(c) => cmds.push(c),
                None => {},
            }
            i = i + 1;
        }
        assert(values@.subrange(0, values@.len() as int) == values@);
        cmds
    }
}

} // verus!
