//! When processors are balanced, and by whom.
use crate::process::manager::{ProcessManager, ProcessManagerView};
use crate::sched::domain::{SchedDomain, SchedGroup};
use crate::sched::percpu::{SchedCore, SchedCoreView, cpu_rq, is_idle_cpu};
use crate::sched::rq::{CpuRunQueue, HZ};
use crate::smp::cpu::{CpuMask, ProcessorId, MAX_CPU_NUM};
use vstd::prelude::*;

pub use crate::process::action::CpuIdleType;

verus! {

/// The longest time between two rounds on the largest machine, in ticks.
pub const LONGEST_INTERVAL: u64 = 3200;

/// What is being balanced.
#[derive(Debug, Clone, Copy)]
pub struct LbEnv {
    pub idle: CpuIdleType,
    pub sd: Option<SchedDomain>,
    /// The processors that take part.
    pub cpus: CpuMask,
    /// The processor that pulls tasks.
    pub dst_cpu: ProcessorId,
}

impl SchedCoreView {
    /// The longest time between two rounds, in ticks: a tenth of a second for every
    /// processor that is there.
    pub open spec fn max_interval(self) -> int {
        (HZ * self.smp.present.spec_count()) / 10
    }

    /// The time between two rounds of a domain, in ticks. A busy processor waits
    /// longer, less one tick so that the levels do not run in step.
    pub open spec fn balance_interval(self, sd: SchedDomain, busy: bool) -> int {
        let ms = if busy {
            saturated(sd.balance_interval * sd.busy_factor)
        } else {
            sd.balance_interval as int
        };
        let ticks = saturated(ms * HZ) / 1000;
        let ticks = if busy && ticks > 0 {
            ticks - 1
        } else {
            ticks
        };
        if ticks < 1 {
            1
        } else if ticks > self.max_interval() {
            self.max_interval()
        } else {
            ticks
        }
    }

    /// Whether a processor runs nothing but tasks that run only when nothing else
    /// does.
    pub open spec fn sched_idle_cpu(self, cpu: ProcessorId) -> bool {
        !cpu.is_invalid() && self.rq(cpu).nr_running > 0 && self.rq(cpu).nr_running as u64
            == self.rq(cpu).cfs.idle_h_nr_running
    }

    /// Whether the processor in slot `i` is the lowest idle one of a set.
    pub open spec fn is_first_idle(
        self,
        pm: ProcessManagerView,
        mask: CpuMask,
        i: int,
    ) -> bool {
        &&& self.is_idle_member(pm, mask, i)
        &&& forall|j: int| 0 <= j < i ==> !#[trigger] self.is_idle_member(pm, mask, j)
    }

    /// Whether the processor in slot `i` is an idle one of a set.
    pub open spec fn is_idle_member(
        self,
        pm: ProcessManagerView,
        mask: CpuMask,
        i: int,
    ) -> bool {
        mask.has(i) && self.is_idle_cpu(pm, ProcessorId::new(i as u32))
    }

    /// Whether a processor should balance: one that has just become idle always
    /// should; else it has to take part, and an idle processor of the group goes
    /// before the others.
    pub open spec fn should_balance(self, pm: ProcessManagerView, env: LbEnv) -> bool {
        env.idle == CpuIdleType::NewlyIdle || {
            &&& env.sd is Some
            &&& env.sd->Some_0.groups is Some
            &&& env.cpus.has(env.dst_cpu.id as int)
            &&& self.no_idle_before(pm, env.sd->Some_0.groups->Some_0.cpumask, env.dst_cpu)
        }
    }

    /// Whether the lowest idle processor of a set, if there is any, is `cpu`.
    pub open spec fn no_idle_before(
        self,
        pm: ProcessManagerView,
        mask: CpuMask,
        cpu: ProcessorId,
    ) -> bool {
        forall|i: int| #[trigger] self.is_first_idle(pm, mask, i) ==> i == cpu.id
    }

    /// There is a processor, and no domain was balanced so late that the next round
    /// is beyond the end of time.
    pub open spec fn can_rebalance(self) -> bool {
        &&& self.wf()
        &&& self.smp.present.spec_count() >= 1
        &&& forall|d: int|
            0 <= d < self.domains.len() ==> (#[trigger] self.domains[d]).last_balance
                + LONGEST_INTERVAL <= u64::MAX
    }
}

/// `n`, or the largest number that there is.
pub open spec fn saturated(n: int) -> int {
    if n > u64::MAX {
        u64::MAX as int
    } else {
        n
    }
}

/// The product, or the largest number that there is.
fn saturating_product(a: u64, b: u64) -> (p: u64)
    ensures
        p == saturated(a * b),
{
    match a.checked_mul(b) {
        Some(p) => p,
        None => u64::MAX,
    }
}

/// The longest time between two rounds, in ticks.
pub fn max_load_balance_interval(sched: &SchedCore) -> (ticks: u64)
    ensures
        ticks == sched@.max_interval(),
        ticks <= LONGEST_INTERVAL,
        sched@.smp.present.spec_count() >= 1 ==> ticks >= 1,
{
    (HZ * sched.smp.present_cpus_count() as u64) / 10
}

/// The number of ticks in a number of milliseconds.
fn msecs_to_jiffies(ms: u64) -> (ticks: u64)
    ensures
        ticks == saturated(ms * HZ) / 1000,
{
    saturating_product(ms, HZ) / 1000
}

/// The time between two rounds of a domain, in ticks.
pub fn get_sd_balance_interval(sched: &SchedCore, sd: &SchedDomain, busy: bool) -> (interval: u64)
    requires
        sched@.smp.present.spec_count() >= 1,
    ensures
        interval == sched@.balance_interval(*sd, busy),
        1 <= interval <= LONGEST_INTERVAL,
{
    let mut interval: u64 = sd.balance_interval;
    if busy {
        interval = saturating_product(interval, sd.busy_factor as u64);
    }
    interval = msecs_to_jiffies(interval);
    if busy {
        interval = interval.saturating_sub(1);
    }
    let max: u64 = max_load_balance_interval(sched);
    if interval < 1 {
        1
    } else if interval > max {
        max
    } else {
        interval
    }
}

/// Whether this processor should balance: one that has just become idle always
/// should; else it has to take part, and an idle processor of the group goes before
/// the others.
pub fn should_we_balance(sched: &SchedCore, pm: &ProcessManager, env: &LbEnv) -> (b: bool)
    requires
        sched@.wf(),
    ensures
        b == sched@.should_balance(pm@, *env),
{
    if env.idle == CpuIdleType::NewlyIdle {
        return true;
    }
    let sd = match env.sd {
        Some(sd) => sd,
        None => {
            return false;
        },
    };
    let group = match sd.groups {
        Some(group) => group,
        None => {
            return false;
        },
    };
    if !env.cpus.contains(env.dst_cpu) {
        return false;
    }
    let mut i: u32 = 0;
    while i < MAX_CPU_NUM
        invariant
            i <= MAX_CPU_NUM,
            sched@.wf(),
            forall|j: int| 0 <= j < i ==> !#[trigger] sched@.is_idle_member(pm@, group.cpumask, j),
            env.idle != CpuIdleType::NewlyIdle,
            env.sd == Some(sd),
            sd.groups == Some(group),
            env.cpus.has(env.dst_cpu.id as int),
        decreases MAX_CPU_NUM - i,
    {
        let cpu = ProcessorId::new(i);
        if group.cpumask.contains(cpu) && is_idle_cpu(sched, pm, cpu) {
            proof {
                assert(sched@.is_idle_member(pm@, group.cpumask, i as int));
                assert(sched@.is_first_idle(pm@, group.cpumask, i as int));
                assert forall|k: int| #[trigger]
                    sched@.is_first_idle(pm@, group.cpumask, k) implies k == i by {
                    assert(sched@.is_idle_member(pm@, group.cpumask, k));
                    assert(sched@.is_idle_member(pm@, group.cpumask, i as int));
                    if k < i {
                        assert(!sched@.is_idle_member(pm@, group.cpumask, k));
                    } else if k > i {
                        assert(!sched@.is_idle_member(pm@, group.cpumask, i as int));
                    }
                }
            }
            let is_dst = cpu == env.dst_cpu;
            assert(is_dst == sched@.no_idle_before(pm@, group.cpumask, env.dst_cpu));
            return is_dst;
        }
        i = i + 1;
    }
    assert forall|k: int| !#[trigger] sched@.is_first_idle(pm@, group.cpumask, k) by {
        if sched@.is_first_idle(pm@, group.cpumask, k) {
            assert(sched@.is_idle_member(pm@, group.cpumask, k));
        }
    }
    assert(sched@.no_idle_before(pm@, group.cpumask, env.dst_cpu));
    true
}

/// The processor that balances for a group: its lowest one.
pub fn group_balance_cpu(sg: &SchedGroup) -> (cpu: Option<ProcessorId>)
    requires
        !sg.cpumask.spec_is_empty(),
    ensures
        cpu is Some,
        sg.cpumask.is_first(cpu->Some_0),
{
    sg.cpumask.first()
}

/// Whether a processor runs nothing but tasks that run only when nothing else does.
fn sched_idle_cpu(sched: &SchedCore, cpu: ProcessorId) -> (b: bool)
    requires
        sched@.wf(),
        cpu.is_invalid() || cpu.id < MAX_CPU_NUM,
    ensures
        b == sched@.sched_idle_cpu(cpu),
{
    if cpu.is_invalid() {
        return false;
    }
    let rq = cpu_rq(sched, cpu.data() as usize);
    rq.sched_idle_rq()
}

/// How far a round of balancing has come.
#[derive(Debug, Clone, Copy)]
pub struct Rebalance {
    /// The processor that is being balanced.
    pub cpu: ProcessorId,
    pub idle: CpuIdleType,
    pub busy: bool,
    pub continue_balancing: bool,
    /// When to balance next, as far as is known.
    pub next_balance: u64,
    /// When the round began, in ticks.
    pub jiffies: u64,
    /// The domain that is to be balanced now, or none when the round is over.
    pub at: Option<usize>,
}

impl Rebalance {
    /// The domain that the round has come to.
    pub open spec fn domain(self, sched: SchedCoreView) -> SchedDomain {
        sched.domains[self.at->Some_0 as int]
    }

    /// Whether the time of the current domain has come.
    pub open spec fn is_due(self, sched: SchedCoreView) -> bool {
        self.jiffies >= self.candidate(sched)
    }

    /// When the current domain comes next.
    pub open spec fn candidate(self, sched: SchedCoreView) -> int {
        self.domain(sched).last_balance + sched.balance_interval(self.domain(sched), self.busy)
    }

    /// The round goes on to the next level, once it is known when the current one
    /// comes next.
    pub open spec fn left_domain(self, sched: SchedCoreView) -> Rebalance {
        let candidate = self.candidate(sched);
        Rebalance {
            next_balance: if candidate < self.next_balance {
                candidate as u64
            } else {
                self.next_balance
            },
            at: self.domain(sched).parent,
            ..self
        }
    }

    /// The round goes on until a domain is due, or is over.
    pub open spec fn advanced(self, sched: SchedCoreView) -> Rebalance
        decreases
                if self.at is Some && self.at->Some_0 < sched.domains.len() {
                    sched.domains.len() - self.at->Some_0
                } else {
                    0
                },
        when sched.wf() && (self.at is Some ==> self.at->Some_0 < sched.domains.len())
    {
        if self.at is None {
            self
        } else if !self.continue_balancing {
            Rebalance { at: None, ..self }
        } else if self.is_due(sched) {
            self
        } else {
            self.left_domain(sched).advanced(sched)
        }
    }

    /// When a round is over the queue is told when the next one is.
    pub open spec fn settled(self, sched: SchedCoreView) -> SchedCoreView {
        if self.at is None && self.next_balance != u64::MAX {
            sched.with_rq(
                self.cpu,
                CpuRunQueue { next_balance: self.next_balance, ..sched.rq(self.cpu) },
            )
        } else {
            sched
        }
    }

    /// The beginning of a round.
    pub open spec fn begun(
        sched: SchedCoreView,
        cpu: ProcessorId,
        idle: CpuIdleType,
        jiffies: u64,
    ) -> Rebalance {
        Rebalance {
            cpu,
            idle,
            busy: idle != CpuIdleType::Idle && !sched.sched_idle_cpu(cpu),
            continue_balancing: true,
            next_balance: u64::MAX,
            jiffies,
            at: sched.rq(cpu).sched_domain,
        }
    }

    /// The round once it is known whether tasks were moved, and whether to go on: if
    /// tasks were moved the processor may no longer be as idle as it was.
    pub open spec fn heard(
        self,
        sched: SchedCoreView,
        pm: ProcessManagerView,
        moved: bool,
        continue_balancing: bool,
    ) -> Rebalance {
        let idle = if !moved {
            self.idle
        } else if sched.is_idle_cpu(pm, self.cpu) {
            CpuIdleType::Idle
        } else {
            CpuIdleType::NotIdle
        };
        Rebalance {
            idle,
            busy: if moved {
                idle != CpuIdleType::Idle && !sched.sched_idle_cpu(self.cpu)
            } else {
                self.busy
            },
            continue_balancing,
            ..self
        }
    }

    /// The domains once the current one was balanced.
    pub open spec fn stamped(self, sched: SchedCoreView) -> SchedCoreView {
        SchedCoreView {
            domains: sched.domains.update(
                self.at->Some_0 as int,
                SchedDomain { last_balance: self.jiffies, ..self.domain(sched) },
            ),
            ..sched
        }
    }

    /// Whether the round can go on.
    pub open spec fn wf(self, sched: SchedCoreView) -> bool {
        &&& sched.can_rebalance()
        &&& self.cpu.id < MAX_CPU_NUM
        &&& self.jiffies + LONGEST_INTERVAL <= u64::MAX
        &&& self.next_balance > self.jiffies
        &&& self.at is Some ==> self.at->Some_0 < sched.domains.len()
    }

    /// Looks when the current domain comes next, and goes on to the next level.
    fn leave_domain(&mut self, sched: &SchedCore)
        requires
            old(self).wf(sched@),
            old(self).at is Some,
            !old(self).is_due(sched@),
        ensures
            *final(self) == old(self).left_domain(sched@),
            final(self).wf(sched@),
    {
        let d: usize = self.at.unwrap();
        let sd = sched.domains[d];
        let interval: u64 = get_sd_balance_interval(sched, &sd, self.busy);
        let candidate: u64 = sd.last_balance + interval;
        if candidate < self.next_balance {
            self.next_balance = candidate;
        }
        self.at = sd.parent;
    }

    /// Goes on until a domain is due, or the round is over, and tells the queue when
    /// the next round is.
    fn advance(&mut self, sched: &mut SchedCore)
        requires
            old(self).wf(old(sched)@),
        ensures
            *final(self) == old(self).advanced(old(sched)@),
            final(sched)@ == final(self).settled(old(sched)@),
            final(self).wf(final(sched)@),
    {
        let ghost goal = self.advanced(sched@);
        let ghost sched0 = sched@;
        let mut go_on = true;
        while go_on && self.at.is_some()
            invariant
                sched@ == sched0,
                self.wf(sched@),
                go_on ==> goal == self.advanced(sched@),
                !go_on ==> goal == *self,
            decreases
                    if go_on && self.at is Some {
                        1 + sched@.domains.len() - self.at->Some_0
                    } else {
                        0
                    },
        {
            let d: usize = self.at.unwrap();
            let sd = sched.domains[d];
            if !self.continue_balancing {
                self.at = None;
            } else {
                let interval: u64 = get_sd_balance_interval(sched, &sd, self.busy);
                if self.jiffies >= sd.last_balance + interval {
                    go_on = false;
                } else {
                    self.leave_domain(sched);
                }
            }
        }
        if self.at.is_none() && self.next_balance != u64::MAX {
            let mut rq = cpu_rq(sched, self.cpu.data() as usize);
            rq.next_balance = self.next_balance;
            proof {
                sched@.lemma_with_rq(self.cpu, rq);
            }
            sched.set_rq(self.cpu, rq);
        }
    }

    /// Goes on with the round after the current domain was balanced. `moved` tells
    /// whether tasks were moved.
    pub fn balanced(
        &mut self,
        sched: &mut SchedCore,
        pm: &ProcessManager,
        moved: bool,
        continue_balancing: bool,
    )
        requires
            old(self).wf(old(sched)@),
            old(self).at is Some,
        ensures
            ({
                let heard = old(self).heard(old(sched)@, pm@, moved, continue_balancing);
                let stamped = heard.stamped(old(sched)@);
                &&& *final(self) == heard.left_domain(stamped).advanced(stamped)
                &&& final(sched)@ == final(self).settled(stamped)
            }),
            final(self).wf(final(sched)@),
    {
        self.continue_balancing = continue_balancing;
        if moved {
            self.idle = if is_idle_cpu(sched, pm, self.cpu) {
                CpuIdleType::Idle
            } else {
                CpuIdleType::NotIdle
            };
            self.busy = self.idle != CpuIdleType::Idle && !sched_idle_cpu(sched, self.cpu);
        }
        let ghost heard = *self;
        let d: usize = self.at.unwrap();
        let mut sd = sched.domains[d];
        sd.last_balance = self.jiffies;
        sched.domains[d] = sd;
        assert(sched@ == heard.stamped(old(sched)@));
        self.leave_domain(sched);
        self.advance(sched);
    }
}

/// Begins a round of balancing for a processor, at the time `jiffies`. As long as the
/// result names a domain, that has to be balanced, and `balanced` told.
pub fn rebalance_domains(
    sched: &mut SchedCore,
    cpu: ProcessorId,
    idle: CpuIdleType,
    jiffies: u64,
) -> (round: Rebalance)
    requires
        old(sched)@.wf(),
        cpu.id < MAX_CPU_NUM,
        old(sched)@.rq(cpu).sched_domain is Some ==> old(sched)@.can_rebalance() && jiffies
            + LONGEST_INTERVAL <= u64::MAX,
    ensures
        round == Rebalance::begun(old(sched)@, cpu, idle, jiffies).advanced(old(sched)@),
        final(sched)@ == round.settled(old(sched)@),
        old(sched)@.rq(cpu).sched_domain is Some ==> round.wf(final(sched)@),
        old(sched)@.rq(cpu).sched_domain is None ==> round.at is None && final(sched)@
            == old(sched)@,
{
    let rq = cpu_rq(sched, cpu.data() as usize);
    let mut round = Rebalance {
        cpu,
        idle,
        busy: idle != CpuIdleType::Idle && !sched_idle_cpu(sched, cpu),
        continue_balancing: true,
        next_balance: u64::MAX,
        jiffies,
        at: rq.sched_domain(),
    };
    if round.at.is_some() {
        round.advance(sched);
    }
    round
}

/// A round that goes on until a domain is to be balanced has come to one that is due.
pub proof fn law_round_stops_at_a_due_domain(round: Rebalance, sched: SchedCoreView)
    requires
        round.wf(sched),
    ensures
        round.advanced(sched).at is Some ==> round.advanced(sched).is_due(sched),
    decreases
            if round.at is Some {
                sched.domains.len() - round.at->Some_0
            } else {
                0
            },
{
    if round.at is Some && round.continue_balancing && !round.is_due(sched) {
        law_round_stops_at_a_due_domain(round.left_domain(sched), sched);
    }
}

/// What the balancer has done to a domain: how it leaves the tables, whether it moved
/// tasks, and whether to go on.
pub struct BalanceReply {
    pub sched: SchedCoreView,
    pub pm: ProcessManagerView,
    pub moved: bool,
    pub continue_balancing: bool,
}

impl Rebalance {
    /// The domains that a round passes because they are not due, each by when it comes
    /// next.
    pub open spec fn passed(self, sched: SchedCoreView) -> Seq<int>
        decreases
                if self.at is Some && self.at->Some_0 < sched.domains.len() {
                    sched.domains.len() - self.at->Some_0
                } else {
                    0
                },
        when sched.wf() && (self.at is Some ==> self.at->Some_0 < sched.domains.len())
    {
        if self.at is None || !self.continue_balancing || self.is_due(sched) {
            Seq::empty()
        } else {
            seq![self.candidate(sched)] + self.left_domain(sched).passed(sched)
        }
    }

    /// The round once the balancer has answered for the current domain.
    pub open spec fn answered(self, reply: BalanceReply) -> Rebalance {
        self.heard(reply.sched, reply.pm, reply.moved, reply.continue_balancing)
    }

    /// The tables then.
    pub open spec fn answered_sched(self, reply: BalanceReply) -> SchedCoreView {
        self.answered(reply).stamped(reply.sched)
    }

    /// The round when it has come to the next domain that is due, or is over.
    pub open spec fn went_on(self, reply: BalanceReply) -> Rebalance {
        let sched = self.answered_sched(reply);
        self.answered(reply).left_domain(sched).advanced(sched)
    }

    /// The round after a number of answers.
    pub open spec fn after(self, replies: Seq<BalanceReply>) -> Rebalance
        decreases replies.len(),
    {
        if replies.len() == 0 {
            self
        } else {
            self.went_on(replies[0]).after(replies.drop_first())
        }
    }

    /// The domains that a round leaves behind over a number of answers, each by when it
    /// comes next.
    pub open spec fn times(self, replies: Seq<BalanceReply>) -> Seq<int>
        decreases replies.len(),
    {
        if replies.len() == 0 {
            Seq::empty()
        } else {
            let sched = self.answered_sched(replies[0]);
            let heard = self.answered(replies[0]);
            seq![heard.candidate(sched)] + heard.left_domain(sched).passed(sched) + self.went_on(
                replies[0],
            ).times(replies.drop_first())
        }
    }

    /// Whether there is a domain to be balanced for each answer, and the round can go on
    /// with the tables as they come back.
    pub open spec fn takes(self, replies: Seq<BalanceReply>) -> bool
        decreases replies.len(),
    {
        replies.len() > 0 ==> {
            &&& self.at is Some
            &&& self.wf(replies[0].sched)
            &&& self.went_on(replies[0]).takes(replies.drop_first())
        }
    }

    /// What a round passes keeps the round in order, and is taken into account.
    proof fn lemma_passed(self, sched: SchedCoreView)
        requires
            self.wf(sched),
        ensures
            self.advanced(sched).wf(sched),
            self.advanced(sched).jiffies == self.jiffies,
            is_least(
                self.advanced(sched).next_balance as int,
                self.next_balance as int,
                self.passed(sched),
            ),
            all_after(self.passed(sched), self.jiffies as int),
        decreases
                if self.at is Some {
                    sched.domains.len() - self.at->Some_0
                } else {
                    0
                },
    {
        if self.at is Some && self.continue_balancing && !self.is_due(sched) {
            self.lemma_left(sched);
            let left = self.left_domain(sched);
            left.lemma_passed(sched);
            lemma_least_on(
                left.advanced(sched).next_balance as int,
                left.next_balance as int,
                self.next_balance as int,
                seq![self.candidate(sched)],
                left.passed(sched),
            );
        }
    }

    /// A domain that is not due is left in order.
    proof fn lemma_left(self, sched: SchedCoreView)
        requires
            self.wf(sched),
            self.at is Some,
            !self.is_due(sched),
        ensures
            self.left_domain(sched).wf(sched),
            self.candidate(sched) > self.jiffies,
            is_least(
                self.left_domain(sched).next_balance as int,
                self.next_balance as int,
                seq![self.candidate(sched)],
            ),
    {
        law_balance_interval_is_bounded(sched, self.domain(sched), self.busy);
        let s = seq![self.candidate(sched)];
        assert(s[0] == self.candidate(sched));
    }

    /// An answer keeps the round in order.
    proof fn lemma_went_on(self, reply: BalanceReply)
        requires
            self.wf(reply.sched),
            self.at is Some,
        ensures
            self.answered(reply).wf(self.answered_sched(reply)),
            !self.answered(reply).is_due(self.answered_sched(reply)),
    {
        let heard = self.answered(reply);
        let sched = self.answered_sched(reply);
        law_balance_interval_is_bounded(sched, heard.domain(sched), heard.busy);
        assert(heard.domain(sched).last_balance == heard.jiffies);
    }
}

/// Whether `n` is the least of `m` and the members of a list.
pub open spec fn is_least(n: int, m: int, list: Seq<int>) -> bool {
    &&& n <= m
    &&& forall|i: int| 0 <= i < list.len() ==> n <= #[trigger] list[i]
    &&& n == m || list.contains(n)
}

/// Whether all members of a list are later than a moment.
pub open spec fn all_after(list: Seq<int>, moment: int) -> bool {
    forall|i: int| 0 <= i < list.len() ==> #[trigger] list[i] > moment
}

/// The least of two lists is the least of the second one and of the least of the first.
proof fn lemma_least_on(n: int, m: int, k: int, a: Seq<int>, b: Seq<int>)
    requires
        is_least(m, k, a),
        is_least(n, m, b),
    ensures
        is_least(n, k, a + b),
        forall|j: int| all_after(a, j) && all_after(b, j) ==> #[trigger] all_after(a + b, j),
{
    let c = a + b;
    assert forall|i: int| 0 <= i < c.len() implies n <= #[trigger] c[i] by {
        if i < a.len() {
            assert(c[i] == a[i]);
        } else {
            assert(c[i] == b[i - a.len()]);
        }
    }
    if b.contains(n) {
        let i = choose|i: int| 0 <= i < b.len() && b[i] == n;
        assert(c[a.len() + i] == n);
    } else if a.contains(m) {
        let i = choose|i: int| 0 <= i < a.len() && a[i] == m;
        assert(c[i] == n);
    }
    assert forall|j: int| all_after(a, j) && all_after(b, j) implies #[trigger] all_after(
        a + b,
        j,
    ) by {
        assert forall|i: int| 0 <= i < c.len() implies #[trigger] c[i] > j by {
            if i < a.len() {
                assert(c[i] == a[i]);
            } else {
                assert(c[i] == b[i - a.len()]);
            }
        }
    }
}

/// However the balancer answers, what is known of the next round is the least of what was
/// known before and of the times at which the domains that were left behind come next, and
/// all of these lie after the moment at which the round began.
pub proof fn law_next_balance_is_the_least(round: Rebalance, replies: Seq<BalanceReply>)
    requires
        round.next_balance > round.jiffies,
        round.takes(replies),
    ensures
        is_least(
            round.after(replies).next_balance as int,
            round.next_balance as int,
            round.times(replies),
        ),
        all_after(round.times(replies), round.jiffies as int),
        round.after(replies).next_balance > round.jiffies,
    decreases replies.len(),
{
    if replies.len() > 0 {
        let heard = round.answered(replies[0]);
        let sched = round.answered_sched(replies[0]);
        round.lemma_went_on(replies[0]);
        heard.lemma_left(sched);
        let left = heard.left_domain(sched);
        left.lemma_passed(sched);
        let first = seq![heard.candidate(sched)];
        assert(all_after(first, round.jiffies as int)) by {
            assert(first[0] == heard.candidate(sched));
        }
        let next = round.went_on(replies[0]);
        lemma_least_on(
            next.next_balance as int,
            left.next_balance as int,
            round.next_balance as int,
            first,
            left.passed(sched),
        );
        let rest = replies.drop_first();
        law_next_balance_is_the_least(next, rest);
        lemma_least_on(
            next.after(rest).next_balance as int,
            next.next_balance as int,
            round.next_balance as int,
            first + left.passed(sched),
            next.times(rest),
        );
    }
}

/// The same from the beginning of a round: when it is over, the next one is when the first
/// of the domains comes next that were looked at.
pub proof fn law_round_ends_with_the_least(
    sched: SchedCoreView,
    cpu: ProcessorId,
    idle: CpuIdleType,
    jiffies: u64,
    replies: Seq<BalanceReply>,
)
    requires
        sched.can_rebalance(),
        cpu.id < MAX_CPU_NUM,
        jiffies + LONGEST_INTERVAL <= u64::MAX,
        Rebalance::begun(sched, cpu, idle, jiffies).advanced(sched).takes(replies),
    ensures
        ({
            let begun = Rebalance::begun(sched, cpu, idle, jiffies);
            let end = begun.advanced(sched).after(replies);
            let times = begun.passed(sched) + begun.advanced(sched).times(replies);
            &&& is_least(end.next_balance as int, u64::MAX as int, times)
            &&& all_after(times, jiffies as int)
            &&& end.next_balance > jiffies
        }),
{
    let begun = Rebalance::begun(sched, cpu, idle, jiffies);
    begun.lemma_passed(sched);
    let round = begun.advanced(sched);
    law_next_balance_is_the_least(round, replies);
    lemma_least_on(
        round.after(replies).next_balance as int,
        round.next_balance as int,
        u64::MAX as int,
        begun.passed(sched),
        round.times(replies),
    );
}

/// A domain that is balanced is not due again at the same time.
pub proof fn law_balanced_domain_is_not_due(round: Rebalance, sched: SchedCoreView)
    requires
        round.wf(sched),
        round.at is Some,
    ensures
        !round.is_due(round.stamped(sched)),
{
}

/// The time between two rounds is at least one tick, and a tenth of a second for every
/// processor at most.
pub proof fn law_balance_interval_is_bounded(sched: SchedCoreView, sd: SchedDomain, busy: bool)
    requires
        sched.smp.present.spec_count() >= 1,
    ensures
        1 <= sched.balance_interval(sd, busy) <= sched.max_interval(),
{
}

/// A machine is balanced every tenth of a second for each processor at the latest. A domain comes
/// again after its interval, in ticks of a 250th of a second; for a busy processor the interval
/// is longer by the factor of the domain, and a tick less. The interval is never less than a tick.
pub proof fn law_time_between_rounds(sched: SchedCoreView, sd: SchedDomain)
    requires
        sched.smp.present.spec_count() >= 1,
        sd.balance_interval * sd.busy_factor * 250 <= u64::MAX,
        sd.balance_interval * 250 <= u64::MAX,
        sd.balance_interval * sd.busy_factor <= u64::MAX,
    ensures
        ({
            let most = 25 * sched.smp.present.spec_count();
            let idle = sched.balance_interval(sd, false);
            let busy = sched.balance_interval(sd, true);
            let idle_ticks = sd.balance_interval * 250 / 1000;
            let busy_ticks = sd.balance_interval * sd.busy_factor * 250 / 1000 - 1;
            &&& sched.max_interval() == most
            &&& 1 <= idle_ticks <= most ==> idle == idle_ticks
            &&& idle_ticks < 1 ==> idle == 1
            &&& idle_ticks > most ==> idle == most
            &&& 1 <= busy_ticks <= most ==> busy == busy_ticks
            &&& busy_ticks < 1 ==> busy == 1
            &&& busy_ticks > most ==> busy == most
        }),
{
}

/// A processor that has just become idle always balances. Any other one does so only if it takes
/// part and its domain has groups, and no other processor of its group is the lowest idle one.
pub proof fn law_who_balances(sched: SchedCoreView, pm: ProcessManagerView, env: LbEnv)
    ensures
        env.idle == CpuIdleType::NewlyIdle ==> sched.should_balance(pm, env),
        env.idle != CpuIdleType::NewlyIdle && (env.sd is None || env.sd->Some_0.groups is None
            || env.dst_cpu.id >= 128 || !env.cpus.bits@[env.dst_cpu.id as int])
            ==> !sched.should_balance(pm, env),
        env.idle != CpuIdleType::NewlyIdle && env.sd is Some && env.sd->Some_0.groups is Some
            && env.dst_cpu.id < 128 && env.cpus.bits@[env.dst_cpu.id as int] ==> {
            let mask = env.sd->Some_0.groups->Some_0.cpumask;
            let idle = |i: int|
                0 <= i < 128 && mask.bits@[i] && sched.is_idle_cpu(
                    pm,
                    ProcessorId { id: i as u32 },
                );
            &&& (forall|i: int| !#[trigger] idle(i)) ==> sched.should_balance(pm, env)
            &&& (idle(env.dst_cpu.id as int) && forall|i: int|
                0 <= i < env.dst_cpu.id ==> !#[trigger] idle(i)) ==> sched.should_balance(pm, env)
            &&& (exists|i: int| i != env.dst_cpu.id && #[trigger] idle(i) && forall|j: int|
                0 <= j < i ==> !#[trigger] idle(j)) ==> !sched.should_balance(pm, env)
        },
{
    if env.idle != CpuIdleType::NewlyIdle && env.sd is Some && env.sd->Some_0.groups is Some
        && env.dst_cpu.id < 128 && env.cpus.bits@[env.dst_cpu.id as int] {
        let mask = env.sd->Some_0.groups->Some_0.cpumask;
        let idle = |i: int|
            0 <= i < 128 && mask.bits@[i] && sched.is_idle_cpu(pm, ProcessorId { id: i as u32 });
        assert forall|i: int| #[trigger] sched.is_idle_member(pm, mask, i) == idle(i) by {}
        let dst = env.dst_cpu.id as int;
        assert(env.cpus.has(dst));
        if forall|i: int| !#[trigger] idle(i) {
            assert forall|i: int| !#[trigger] sched.is_first_idle(pm, mask, i) by {
                assert(sched.is_idle_member(pm, mask, i) == idle(i));
            }
            assert(sched.no_idle_before(pm, mask, env.dst_cpu));
        }
        if idle(dst) && forall|i: int| 0 <= i < dst ==> !#[trigger] idle(i) {
            assert forall|i: int| #[trigger] sched.is_first_idle(pm, mask, i) implies i == dst by {
                assert(sched.is_idle_member(pm, mask, i) == idle(i));
                assert(sched.is_idle_member(pm, mask, dst) == idle(dst));
                if i > dst {
                    assert(!sched.is_idle_member(pm, mask, dst));
                }
            }
            assert(sched.no_idle_before(pm, mask, env.dst_cpu));
        }
        if exists|i: int| i != dst && #[trigger] idle(i) && forall|j: int|
            0 <= j < i ==> !#[trigger] idle(j) {
            let i = choose|i: int| i != dst && #[trigger] idle(i) && forall|j: int|
                0 <= j < i ==> !#[trigger] idle(j);
            assert(sched.is_idle_member(pm, mask, i));
            assert forall|j: int| 0 <= j < i implies !#[trigger] sched.is_idle_member(
                pm,
                mask,
                j,
            ) by {
                assert(!idle(j));
            }
            assert(sched.is_first_idle(pm, mask, i));
        }
    }
}

/// A round begins with the lowest domain of the processor and nothing known of the next round. The
/// processor counts as busy unless it is idle, or runs nothing but tasks that run only when
/// nothing else does.
pub proof fn law_round_begins(
    sched: SchedCoreView,
    cpu: ProcessorId,
    idle: CpuIdleType,
    jiffies: u64,
)
    requires
        cpu.id < 128,
    ensures
        ({
            let round = Rebalance::begun(sched, cpu, idle, jiffies);
            let rq = sched.rqs[cpu.id as int];
            &&& round.cpu == cpu
            &&& round.idle == idle
            &&& round.jiffies == jiffies
            &&& round.next_balance == u64::MAX
            &&& round.continue_balancing
            &&& round.at == rq.sched_domain
            &&& round.busy <==> idle != CpuIdleType::Idle && !(rq.nr_running > 0
                && rq.nr_running as u64 == rq.cfs.idle_h_nr_running)
        }),
{
}

/// A domain is due once its interval has passed since it was last balanced. One that is left
/// behind hands on to the next higher one, and brings the next round forward if it comes sooner.
pub proof fn law_domains_are_taken_upwards(round: Rebalance, sched: SchedCoreView)
    requires
        round.wf(sched),
        round.at is Some,
    ensures
        ({
            let sd = sched.domains[round.at->Some_0 as int];
            let next = sd.last_balance + sched.balance_interval(sd, round.busy);
            let left = round.left_domain(sched);
            &&& round.is_due(sched) <==> round.jiffies >= next
            &&& left.at == sd.parent
            &&& left.next_balance == if next < round.next_balance {
                next
            } else {
                round.next_balance as int
            }
            &&& left.jiffies == round.jiffies
            &&& left.cpu == round.cpu
            &&& left.busy == round.busy
        }),
{
    law_balance_interval_is_bounded(sched, round.domain(sched), round.busy);
}

/// If tasks were moved the processor is looked at again, and otherwise counts as before. The
/// domain that was balanced is stamped with the time of the round.
pub proof fn law_round_hears_of_moves(
    round: Rebalance,
    sched: SchedCoreView,
    pm: ProcessManagerView,
    go_on: bool,
)
    requires
        round.wf(sched),
        round.at is Some,
    ensures
        ({
            let moved = round.heard(sched, pm, true, go_on);
            let same = round.heard(sched, pm, false, go_on);
            let rq = sched.rqs[round.cpu.id as int];
            &&& same == (Rebalance { continue_balancing: go_on, ..round })
            &&& moved.continue_balancing == go_on
            &&& moved.idle == if sched.is_idle_cpu(pm, round.cpu) {
                CpuIdleType::Idle
            } else {
                CpuIdleType::NotIdle
            }
            &&& moved.busy <==> !sched.is_idle_cpu(pm, round.cpu) && !(rq.nr_running > 0
                && rq.nr_running as u64 == rq.cfs.idle_h_nr_running)
            &&& moved.at == round.at
            &&& moved.next_balance == round.next_balance
            &&& round.stamped(sched).domains[round.at->Some_0 as int] == (SchedDomain {
                last_balance: round.jiffies,
                ..sched.domains[round.at->Some_0 as int]
            })
        }),
{
}

/// When a round is over the queue is told when the next one is, if that is known, and not before.
pub proof fn law_queue_is_told_of_the_next_round(round: Rebalance, sched: SchedCoreView)
    requires
        sched.wf(),
        round.cpu.id < 128,
    ensures
        round.at is None && round.next_balance != u64::MAX ==> round.settled(
            sched,
        ).rqs[round.cpu.id as int] == (CpuRunQueue {
            next_balance: round.next_balance,
            ..sched.rqs[round.cpu.id as int]
        }),
        round.at is Some || round.next_balance == u64::MAX ==> round.settled(sched) == sched,
{
}

} // verus!
