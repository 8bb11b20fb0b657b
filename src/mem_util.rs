//! The messages between the stages, and the termination coordinator.

use vstd::prelude::*;

use crate::check_handler::GenItem;
use crate::gen_handler::Item;

verus! {

/// A message on a stage's input.
#[derive(Clone, Debug, PartialEq, Eq)]
pub enum QueueMessage {
    Job(Item),
    Gen(GenItem),
    Clear,
    Terminate,
    Sleep,
    Break,
}

/// A lifecycle event of the pipeline.
#[derive(PartialEq, Eq, Structural, Clone, Copy, Debug)]
pub enum Statue {
    Check,
    Query,
    Write,
    Unwrite,
    Terminate,
    Querys,
    Writes,
    Checks,
    TargetCount,
}

/// The number of jobs that the scan is expected to classify once `targets`
/// expansions above the roots were issued: one per root, and one per
/// wordlist label for each root and each such expansion.
pub open spec fn expected_total(targets: int, target_len: int, sub_len: int) -> int {
    (targets + target_len) * sub_len + target_len
}

/// What the coordinator asks for after an event.
#[derive(PartialEq, Eq, Structural, Clone, Copy, Debug)]
pub enum Directive {
    Continue,
    SendTerminate,
    Stop,
}

/// The termination coordinator: counters over the lifecycle events, and the
/// two-phase handshake of the shutdown.
pub struct Coordinator {
    pub target_len: u64,
    pub sub_len: u64,
    /// Jobs generated.
    pub querys: u64,
    /// Jobs handed to classification.
    pub checks: u64,
    /// Expansions issued above the roots.
    pub targets: u64,
    /// Results accepted.
    pub writes: u64,
    /// Results persisted.
    pub write: u64,
    /// Jobs whose classification began.
    pub check: u64,
    /// Jobs whose resolution began.
    pub query: u64,
    /// Jobs rejected.
    pub unwrite: u64,
    /// The terminate signal came back through the pipeline.
    pub terminate: bool,
    /// The coordinator has sent the terminate signal.
    pub terminate_sent: bool,
    /// The expected total.
    pub alls: u64,
}

impl Coordinator {
    pub open spec fn wf(&self) -> bool {
        self.alls as int == expected_total(
            self.targets as int,
            self.target_len as int,
            self.sub_len as int,
        )
    }

    /// Every counter can take one more event.
    pub open spec fn room(&self) -> bool {
        &&& self.querys < u64::MAX
        &&& self.checks < u64::MAX
        &&& self.targets < u64::MAX
        &&& self.writes < u64::MAX
        &&& self.write < u64::MAX
        &&& self.check < u64::MAX
        &&& self.query < u64::MAX
        &&& self.unwrite < u64::MAX
        &&& self.targets + 1 + self.target_len <= u64::MAX
        &&& expected_total(self.targets + 1, self.target_len as int, self.sub_len as int)
            <= u64::MAX
    }

    /// No work is outstanding: every expected job was generated, resolved,
    /// handed on and classified.
    pub open spec fn quiescent(&self) -> bool {
        &&& self.querys == self.check
        &&& self.querys == self.checks
        &&& self.querys == self.query
        &&& self.querys as int == self.write + self.unwrite
        &&& self.querys == self.alls
    }

    /// The counters after one more event.
    pub open spec fn counted(self, ev: Statue) -> Coordinator {
        match ev {
            Statue::TargetCount => Coordinator {
                targets: (self.targets + 1) as u64,
                alls: expected_total(
                    self.targets + 1,
                    self.target_len as int,
                    self.sub_len as int,
                ) as u64,
                ..self
            },
            Statue::Checks => Coordinator { checks: (self.checks + 1) as u64, ..self },
            Statue::Querys => Coordinator { querys: (self.querys + 1) as u64, ..self },
            Statue::Writes => Coordinator { writes: (self.writes + 1) as u64, ..self },
            Statue::Write => Coordinator { write: (self.write + 1) as u64, ..self },
            Statue::Check => Coordinator { check: (self.check + 1) as u64, ..self },
            Statue::Query => Coordinator { query: (self.query + 1) as u64, ..self },
            Statue::Unwrite => Coordinator { unwrite: (self.unwrite + 1) as u64, ..self },
            Statue::Terminate => Coordinator { terminate: true, ..self },
        }
    }

    /// The state and the directive after one event.
    pub open spec fn next(self, ev: Statue) -> (Coordinator, Directive) {
        let c = self.counted(ev);
        if c.quiescent() {
            if c.terminate {
                (c, Directive::Stop)
            } else if !c.terminate_sent {
                (Coordinator { terminate_sent: true, ..c }, Directive::SendTerminate)
            } else {
                (c, Directive::Continue)
            }
        } else {
            (c, Directive::Continue)
        }
    }

    /// The coordinator before any event.
    pub open spec fn initial(sub_len: u64, target_len: u64) -> Coordinator {
        Coordinator {
            target_len,
            sub_len,
            querys: 0,
            checks: 0,
            targets: 0,
            writes: 0,
            write: 0,
            check: 0,
            query: 0,
            unwrite: 0,
            terminate: false,
            terminate_sent: false,
            alls: expected_total(0, target_len as int, sub_len as int) as u64,
        }
    }

    /// A coordinator for `target_len` targets and `sub_len` wordlist labels,
    /// before any event.
    pub fn new(sub_len: u64, target_len: u64) -> (r: Coordinator)
        requires
            expected_total(0, target_len as int, sub_len as int) <= u64::MAX,
        ensures
            r.wf(),
            r == Coordinator::initial(sub_len, target_len),
    {
        proof {
            assert(0 <= target_len * sub_len <= target_len * sub_len + target_len) by (
                nonlinear_arith);
        }
        let alls = target_len * sub_len + target_len;
        Coordinator {
            target_len,
            sub_len,
            querys: 0,
            checks: 0,
            targets: 0,
            writes: 0,
            write: 0,
            check: 0,
            query: 0,
            unwrite: 0,
            terminate: false,
            terminate_sent: false,
            alls,
        }
    }

    /// Whether one more event can be counted.
    pub fn has_room(&self) -> (r: bool)
        ensures
            r == self.room(),
    {
        if self.querys == u64::MAX || self.checks == u64::MAX || self.targets == u64::MAX
            || self.writes == u64::MAX || self.write == u64::MAX || self.check == u64::MAX
            || self.query == u64::MAX || self.unwrite == u64::MAX {
            return false;
        }
        let t = self.targets + 1;
        match t.checked_add(self.target_len) {
            None => false,
            Some(a) => match a.checked_mul(self.sub_len) {
                None => {
                    proof {
                        assert(a * self.sub_len + self.target_len >= a * self.sub_len);
                    }
                    false
                },
                Some(b) => b.checked_add(self.target_len).is_some(),
            },
        }
    }

    /// The expected total, which the progress display shows as its length.
    pub fn expected(&self) -> (r: u64)
        ensures
            r == self.alls,
    {
        self.alls
    }

    /// Counts one event and says what to do next: ask for termination at the
    /// first quiescence, and stop at a quiescence after the terminate signal
    /// came back.
    pub fn step(&mut self, ev: Statue) -> (d: Directive)
        requires
            old(self).wf(),
            old(self).room(),
        ensures
            final(self).wf(),
            (*final(self), d) == old(self).next(ev),
    {
        match ev {
            Statue::TargetCount => {
                self.targets = self.targets + 1;
                let base = self.targets + self.target_len;
                proof {
                    assert(0 <= base * self.sub_len) by (nonlinear_arith)
                        requires
                            base >= 0,
                            self.sub_len >= 0,
                    ;
                    assert(base * self.sub_len + self.target_len <= u64::MAX);
                }
                self.alls = base * self.sub_len + self.target_len;
            },
            Statue::Checks => {
                self.checks = self.checks + 1;
            },
            Statue::Querys => {
                self.querys = self.querys + 1;
            },
            Statue::Writes => {
                self.writes = self.writes + 1;
            },
            Statue::Write => {
                self.write = self.write + 1;
            },
            Statue::Check => {
                self.check = self.check + 1;
            },
            Statue::Query => {
                self.query = self.query + 1;
            },
            Statue::Unwrite => {
                self.unwrite = self.unwrite + 1;
            },
            Statue::Terminate => {
                self.terminate = true;
            },
        }
        let done = self.querys == self.check && self.querys == self.checks && self.querys
            == self.query && self.write <= self.querys && self.querys - self.write == self.unwrite
            && self.querys == self.alls;
        if done {
            if self.terminate {
                return Directive::Stop;
            }
            if !self.terminate_sent {
                self.terminate_sent = true;
                return Directive::SendTerminate;
            }
        }
        Directive::Continue
    }
}

/// The state and the directives after a sequence of events.
pub open spec fn run(c: Coordinator, evs: Seq<Statue>) -> (Coordinator, Seq<Directive>)
    decreases evs.len(),
{
    if evs.len() == 0 {
        (c, Seq::empty())
    } else {
        let (c1, d) = c.next(evs[0]);
        let (c2, ds) = run(c1, evs.drop_first());
        (c2, seq![d] + ds)
    }
}

/// The events of a scan of one target with an empty wordlist: the root job
/// is generated, resolved, handed on and classified (accepted and written,
/// or rejected), and then the terminate signal comes back.
pub open spec fn single_root_events(accepted: bool) -> Seq<Statue> {
    if accepted {
        seq![
            Statue::Querys,
            Statue::Query,
            Statue::Checks,
            Statue::Check,
            Statue::Writes,
            Statue::Write,
            Statue::Terminate,
        ]
    } else {
        seq![
            Statue::Querys,
            Statue::Query,
            Statue::Checks,
            Statue::Check,
            Statue::Unwrite,
            Statue::Terminate,
        ]
    }
}

/// A scan of one target with an empty wordlist expects one job; once it is
/// classified the coordinator asks for termination, and it stops when the
/// terminate signal comes back, with one job classified and at most one
/// result written.
pub proof fn lemma_single_target_empty_wordlist_terminates(accepted: bool)
    ensures
        ({
            let (c, ds) = run(Coordinator::initial(0, 1), single_root_events(accepted));
            &&& ds.len() == single_root_events(accepted).len()
            &&& ds.last() == Directive::Stop
            &&& ds[ds.len() - 2] == Directive::SendTerminate
            &&& forall|i: int| 0 <= i < ds.len() - 2 ==> ds[i] == Directive::Continue
            &&& c.alls == 1
            &&& c.check == 1
            &&& c.write <= 1
        }),
{
    reveal_with_fuel(run, 8);
    let evs = single_root_events(accepted);
    let (c, ds) = run(Coordinator::initial(0, 1), evs);
    if accepted {
        assert(ds =~= seq![
            Directive::Continue,
            Directive::Continue,
            Directive::Continue,
            Directive::Continue,
            Directive::Continue,
            Directive::SendTerminate,
            Directive::Stop,
        ]);
    } else {
        assert(ds =~= seq![
            Directive::Continue,
            Directive::Continue,
            Directive::Continue,
            Directive::Continue,
            Directive::SendTerminate,
            Directive::Stop,
        ]);
    }
}

} // verus!
