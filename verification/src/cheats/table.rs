//! The installed table and what has happened to it.

use vstd::prelude::*;
use crate::bus::regs::BusModel;
use crate::bus::Bus;
use crate::text::{chars_of, same};
use super::run::{ran, run};
use super::{cheat_models, group_models, groups_ok, op_ok, Cheat, CheatModel, Group};

verus! {

pub struct Table {
    /// Every group's commands flattened in file order. A conditional's
    /// skip count counts commands as the file writes them, so a disabled
    /// group's commands stay in the run and are stepped over rather than
    /// removed.
    pub cheats: Vec<Cheat>,
    /// The group each command came from, as an index into `groups`.
    pub owner: Vec<usize>,
    /// Group names in file order, and whether each is switched on.
    pub groups: Vec<(String, bool)>,
    /// Per command: a one-shot has fired, or a write was refused.
    pub done: Vec<bool>,
    pub enabled: bool,
}

/// The command after `i` and `skip` more, or the end.
pub open spec fn jump(i: int, skip: usize, n: int) -> int {
    if i + 1 + skip < n {
        i + 1 + skip
    } else {
        n
    }
}

/// A table run once from command `i` on: the machine and what is done after
/// it. Commands that are done or switched off (`on`) are stepped over, a
/// failed conditional skips, and a refused command is dropped for good.
pub open spec fn applied(m: BusModel, cheats: Seq<CheatModel>, on: Seq<bool>, done: Seq<bool>, i: int) -> (
    BusModel,
    Seq<bool>,
)
    decreases cheats.len() - i,
{
    if i < 0 || i >= cheats.len() {
        (m, done)
    } else if done[i] || !on[i] {
        applied(m, cheats, on, done, i + 1)
    } else {
        let (w, r) = ran(m, cheats[i].target, cheats[i].op);
        match r {
            Ok(skip) => applied(
                w,
                cheats,
                on,
                if cheats[i].once {
                    done.update(i, true)
                } else {
                    done
                },
                jump(i, skip, cheats.len() as int),
            ),
            Err(a) => applied(w, cheats, on, done.update(i, true), i + 1),
        }
    }
}

impl Table {
    pub open spec fn wf(&self) -> bool {
        &&& self.owner@.len() == self.cheats@.len()
        &&& self.done@.len() == self.cheats@.len()
        &&& forall|i: int| 0 <= i < self.owner@.len() ==> (#[trigger] self.owner@[i]) < self.groups@.len()
        &&& forall|i: int| 0 <= i < self.cheats@.len() ==> op_ok((#[trigger] self.cheats@[i])@.op)
    }

    pub open spec fn commands(&self) -> Seq<CheatModel> {
        cheat_models(self.cheats@)
    }

    /// Per command: its group is switched on.
    pub open spec fn on(&self) -> Seq<bool> {
        Seq::new(self.owner@.len(), |i: int| self.groups@[self.owner@[i] as int].1)
    }

    pub fn new() -> (t: Self)
        ensures
            t.wf(),
            t.cheats@.len() == 0,
            t.owner@.len() == 0,
            t.groups@.len() == 0,
            t.done@.len() == 0,
            !t.enabled,
    {
        Table { cheats: Vec::new(), owner: Vec::new(), groups: Vec::new(), done: Vec::new(), enabled: false }
    }

    /// Re-arm the one-shot entries, for a machine that starts over.
    pub fn rearm(&mut self)
        requires
            old(self).wf(),
        ensures
            final(self).wf(),
            final(self).cheats == old(self).cheats,
            final(self).owner == old(self).owner,
            final(self).groups == old(self).groups,
            final(self).enabled == old(self).enabled,
            final(self).done@ == Seq::new(old(self).cheats@.len(), |i: int| false),
    {
        self.done = vec![false; self.cheats.len()];
        assert(self.done@ =~= Seq::new(old(self).cheats@.len(), |i: int| false));
    }

    /// Commands installed, counting those of disabled groups.
    pub fn len(&self) -> (n: usize)
        ensures
            n == self.cheats@.len(),
    {
        self.cheats.len()
    }

    pub fn is_empty(&self) -> (r: bool)
        ensures
            r == (self.cheats@.len() == 0),
    {
        self.cheats.len() == 0
    }

    /// Named blocks installed, which is what a user counts as cheats.
    pub fn groups(&self) -> (n: usize)
        ensures
            n == self.groups@.len(),
    {
        self.groups.len()
    }

    /// Switch every group of this name on or off. `done` is deliberately
    /// left alone: rebuilding the table re-arms every one-shot command,
    /// so flipping one cheat would otherwise re-fire the start-up writes
    /// of every other cheat that was already on.
    pub fn set_group_enabled(&mut self, name: &str, on: bool)
        requires
            old(self).wf(),
        ensures
            final(self).wf(),
            final(self).cheats == old(self).cheats,
            final(self).owner == old(self).owner,
            final(self).done == old(self).done,
            final(self).enabled == old(self).enabled,
            final(self).groups@.len() == old(self).groups@.len(),
            forall|g: int|
                0 <= g < old(self).groups@.len() ==> {
                    &&& (#[trigger] final(self).groups@[g]).0@ == old(self).groups@[g].0@
                    &&& final(self).groups@[g].1 == (if old(self).groups@[g].0@ == name@ {
                        on
                    } else {
                        old(self).groups@[g].1
                    })
                },
    {
        let wanted = chars_of(name);
        let n: usize = self.groups.len();
        for g in 0..n
            invariant
                n == old(self).groups@.len(),
                self.groups@.len() == n,
                wanted@ == name@,
                self.cheats == old(self).cheats,
                self.owner == old(self).owner,
                self.done == old(self).done,
                self.enabled == old(self).enabled,
                forall|k: int| g <= k < n ==> self.groups@[k] == old(self).groups@[k],
                forall|k: int|
                    0 <= k < g ==> {
                        &&& (#[trigger] self.groups@[k]).0@ == old(self).groups@[k].0@
                        &&& self.groups@[k].1 == (if old(self).groups@[k].0@ == name@ {
                            on
                        } else {
                            old(self).groups@[k].1
                        })
                    },
        {
            let called = chars_of(self.groups[g].0.as_str());
            if same(&called, &wanted) {
                self.groups[g].1 = on;
            }
        }
    }

    /// Run the table once, in order, honouring conditional skips.
    pub fn apply(&mut self, bus: &mut Bus)
        requires
            old(self).wf(),
            old(bus).wf(),
        ensures
            final(self).wf(),
            final(bus).wf(),
            ({
                let (m, done) = applied(old(bus).model(), old(self).commands(), old(self).on(), old(self).done@, 0);
                &&& final(bus).model() == m
                &&& final(self).done@ == done
            }),
            final(self).cheats == old(self).cheats,
            final(self).owner == old(self).owner,
            final(self).groups == old(self).groups,
            final(self).enabled == old(self).enabled,
    {
        let n: usize = self.cheats.len();
        let ghost want = applied(bus.model(), self.commands(), self.on(), self.done@, 0);
        let mut i: usize = 0;
        while i < n
            invariant
                n == self.cheats@.len(),
                i <= n,
                self.wf(),
                bus.wf(),
                self.cheats == old(self).cheats,
                self.owner == old(self).owner,
                self.groups == old(self).groups,
                self.enabled == old(self).enabled,
                want == applied(bus.model(), self.commands(), self.on(), self.done@, i as int),
            decreases n - i,
        {
            let at: usize = i;
            let ghost m = bus.model();
            let ghost done = self.done@;
            i = i + 1;
            assert(self.on()[at as int] == self.groups@[self.owner@[at as int] as int].1);
            if !self.done[at] && self.groups[self.owner[at]].1 {
                let c = &self.cheats[at];
                let once = c.once;
                assert(op_ok(self.cheats@[at as int]@.op));
                match run(bus, c.target, &c.op) {
                    Ok(skip) => {
                        if once {
                            self.done[at] = true;
                        }
                        i = if skip < n - i { i + skip } else { n };
                    },
                    Err(_) => {
                        self.done[at] = true;
                    },
                }
            }
        }
    }

    /// A table of these groups, with the one-shot entries armed. Nothing is
    /// applied until the next frame boundary. Use
    /// [`Table::set_group_enabled`] to switch one cheat rather than
    /// installing a filtered table, which would re-arm the rest.
    pub fn set_cheats(&mut self, groups: Vec<Group>)
        requires
            groups_ok(groups@),
        ensures
            final(self).wf(),
            final(self).enabled == old(self).enabled,
            final(self).cheats@ == flat(groups@, groups@.len() as int),
            final(self).owner@ == owners(groups@, groups@.len() as int),
            final(self).groups@ == switches(groups@),
            final(self).done@ == Seq::new(final(self).cheats@.len(), |i: int| false),
    {
        let ghost all = groups@;
        let n: usize = groups.len();
        let mut rest = groups;
        let mut cheats: Vec<Cheat> = Vec::new();
        let mut owner: Vec<usize> = Vec::new();
        let mut named: Vec<(String, bool)> = Vec::new();
        for i in 0..n
            invariant
                n == all.len(),
                rest@ == all.subrange(i as int, n as int),
                cheats@ == flat(all, i as int),
                owner@ == owners(all, i as int),
                named@ == switches(all).subrange(0, i as int),
        {
            let g = rest.remove(0);
            let mut own = g.cheats;
            let k: usize = own.len();
            let ghost before = owner@;
            for j in 0..k
                invariant
                    owner@ == before + Seq::new(j as nat, |x: int| i),
            {
                owner.push(i);
                assert(owner@ =~= before + Seq::new((j + 1) as nat, |x: int| i));
            }
            cheats.append(&mut own);
            named.push((g.name, g.enabled));
            assert(rest@ =~= all.subrange(i + 1, n as int));
            assert(named@ =~= switches(all).subrange(0, i + 1));
        }
        assert(named@ =~= switches(all));
        proof {
            lemma_installed(all, n as int);
        }
        let done: Vec<bool> = vec![false; cheats.len()];
        assert(done@ =~= Seq::new(cheats@.len(), |i: int| false));
        self.done = done;
        self.cheats = cheats;
        self.owner = owner;
        self.groups = named;
    }

    pub fn set_cheats_enabled(&mut self, on: bool)
        ensures
            *final(self) == (Table { enabled: on, ..*old(self) }),
    {
        self.enabled = on;
    }

    /// Called at the start of vertical blank. With no table installed this
    /// is one branch, which is all a hidden feature may cost.
    pub fn apply_cheats(&mut self, bus: &mut Bus)
        requires
            old(self).wf(),
            old(bus).wf(),
        ensures
            final(self).wf(),
            final(bus).wf(),
            ({
                let (m, done) = applied(old(bus).model(), old(self).commands(), old(self).on(), old(self).done@, 0);
                &&& final(bus).model() == (if old(self).enabled {
                    m
                } else {
                    old(bus).model()
                })
                &&& final(self).done@ == (if old(self).enabled {
                    done
                } else {
                    old(self).done@
                })
            }),
            final(self).cheats == old(self).cheats,
            final(self).owner == old(self).owner,
            final(self).groups == old(self).groups,
            final(self).enabled == old(self).enabled,
    {
        if self.cheats.len() == 0 || !self.enabled {
            return;
        }
        self.apply(bus);
    }
}

impl Default for Table {
    fn default() -> (t: Self)
        ensures
            t.wf(),
            t.cheats@.len() == 0,
            t.owner@.len() == 0,
            t.groups@.len() == 0,
            t.done@.len() == 0,
            !t.enabled,
    {
        Table::new()
    }
}

/// The commands of the first `n` groups, in order.
pub open spec fn flat(groups: Seq<Group>, n: int) -> Seq<Cheat>
    decreases n,
{
    if n <= 0 {
        Seq::empty()
    } else {
        flat(groups, n - 1) + groups[n - 1].cheats@
    }
}

/// The group of each of those commands.
pub open spec fn owners(groups: Seq<Group>, n: int) -> Seq<usize>
    decreases n,
{
    if n <= 0 {
        Seq::empty()
    } else {
        owners(groups, n - 1) + Seq::new(groups[n - 1].cheats@.len(), |i: int| (n - 1) as usize)
    }
}

/// The groups' names and switches.
pub open spec fn switches(groups: Seq<Group>) -> Seq<(String, bool)> {
    groups.map(|i: int, g: Group| (g.name, g.enabled))
}

proof fn lemma_installed(groups: Seq<Group>, n: int)
    requires
        0 <= n <= groups.len() <= usize::MAX,
        groups_ok(groups),
    ensures
        flat(groups, n).len() == owners(groups, n).len(),
        forall|i: int| 0 <= i < owners(groups, n).len() ==> (#[trigger] owners(groups, n)[i]) < n,
        forall|i: int| 0 <= i < flat(groups, n).len() ==> op_ok((#[trigger] flat(groups, n)[i])@.op),
    decreases n,
{
    if n > 0 {
        lemma_installed(groups, n - 1);
        let a = flat(groups, n - 1);
        assert forall|i: int| 0 <= i < flat(groups, n).len() implies op_ok((#[trigger] flat(groups, n)[i])@.op) by {
            if i >= a.len() {
                let k = i - a.len();
                assert(flat(groups, n)[i] == groups[n - 1].cheats@[k]);
                assert(group_models(groups)[n - 1].cheats[k] == groups[n - 1].cheats@[k]@);
            } else {
                assert(flat(groups, n)[i] == a[i]);
            }
        }
        let b = owners(groups, n - 1);
        assert forall|i: int| 0 <= i < owners(groups, n).len() implies (#[trigger] owners(groups, n)[i]) < n by {
            if i < b.len() {
                assert(owners(groups, n)[i] == b[i]);
            }
        }
    }
}

/// A table whose groups are all switched off does nothing, and neither does
/// one whose commands are all done.
pub proof fn law_idle_tables_do_nothing(m: BusModel, cheats: Seq<CheatModel>, on: Seq<bool>, done: Seq<bool>, i: int)
    requires
        0 <= i,
        forall|k: int| i <= k < cheats.len() ==> done[k] || !on[k],
    ensures
        applied(m, cheats, on, done, i) == (m, done),
    decreases cheats.len() - i,
{
    if i < cheats.len() {
        law_idle_tables_do_nothing(m, cheats, on, done, i + 1);
    }
}

/// What is done stays done: a one-shot fires once and a refused command is
/// not tried again.
pub proof fn law_done_is_kept(m: BusModel, cheats: Seq<CheatModel>, on: Seq<bool>, done: Seq<bool>, i: int, k: int)
    requires
        0 <= i,
        done.len() == cheats.len(),
        0 <= k < done.len(),
        done[k],
    ensures
        applied(m, cheats, on, done, i).1.len() == done.len(),
        applied(m, cheats, on, done, i).1[k],
    decreases cheats.len() - i,
{
    if i < cheats.len() {
        if done[i] || !on[i] {
            law_done_is_kept(m, cheats, on, done, i + 1, k);
        } else {
            let (w, r) = ran(m, cheats[i].target, cheats[i].op);
            match r {
                Ok(skip) => {
                    let next = if cheats[i].once {
                        done.update(i, true)
                    } else {
                        done
                    };
                    law_done_is_kept(w, cheats, on, next, jump(i, skip, cheats.len() as int), k);
                },
                Err(a) => law_done_is_kept(w, cheats, on, done.update(i, true), i + 1, k),
            }
        }
    }
}

/// A command that touches an address outside RAM is dropped, and so is a
/// one-shot that ran.
pub proof fn law_spent_commands_are_dropped(
    m: BusModel,
    cheats: Seq<CheatModel>,
    on: Seq<bool>,
    done: Seq<bool>,
    i: int,
)
    requires
        0 <= i < cheats.len(),
        done.len() == cheats.len(),
        !done[i],
        on[i],
        ran(m, cheats[i].target, cheats[i].op).1 is Err || cheats[i].once,
    ensures
        applied(m, cheats, on, done, i).1[i],
{
    let (w, r) = ran(m, cheats[i].target, cheats[i].op);
    let next = done.update(i, true);
    match r {
        Ok(skip) => law_done_is_kept(w, cheats, on, next, jump(i, skip, cheats.len() as int), i),
        Err(a) => law_done_is_kept(w, cheats, on, next, i + 1, i),
    }
}

} // verus!
