use crate::action::{outcome_of, run_actions, Effect, Outcome};
use crate::counter::{correct_counter, corrected, rate, throughput};
use crate::params::{zero_sample, Layout, NetworkInfo, Parameters, NET_SAMPLES};
use crate::ring_buffer::{FixedRingBuffer, RingModel};
use crate::rule::Rule;
use crate::touch::TouchStatus;
use vstd::prelude::*;

verus! {

/// The source name under which the local host reports.
pub const DEFAULT_HOST: &'static str = "localhost";

/// How many system snapshots are kept per source.
pub const SYS_SAMPLES: usize = 80;

/// The refresh period, in milliseconds, of the throughput that is reported
/// after each network sample.
pub const NET_REFRESH_MS: u64 = 3000;

/// A system snapshot from a named source; `None` reports a failed poll.
pub struct AnnotatedSystemInfo<S> {
    pub source: String,
    pub si: Option<S>,
}

/// The snapshot history of one source.
#[derive(Clone)]
pub struct SourceHistory<S> {
    pub source: String,
    pub history: FixedRingBuffer<S>,
}

/// A message to the engine.
pub enum Command<S> {
    /// A raw network sample.
    Net(NetworkInfo),
    /// A system snapshot, or a failed poll, of one source.
    SysInfo(AnnotatedSystemInfo<S>),
    /// A touch reading.
    Touch(TouchStatus),
    /// A rule to register.
    AddRule(Rule),
    GetLastNetInfo,
    GetTouchInfo,
    GetNetTxRx { refresh_ms: u64 },
    GetLayout,
    GetSystemInfos,
}

/// What the engine answers to a command.
pub enum Response {
    /// Nothing to report.
    Done,
    /// A network sample was stored: the throughput series at the default
    /// refresh period.
    NetworkData(Vec<i64>, Vec<i64>),
    /// A touch was evaluated: the effects that fired rules asked for.
    Effects(Vec<Effect>),
    /// The two newest network samples, older first.
    LastNetInfo(NetworkInfo, NetworkInfo),
    /// The pending touches, which the engine no longer holds.
    TouchInfo(Vec<TouchStatus>),
    /// Transmit and receive throughput series.
    NetTxRx(Vec<i64>, Vec<i64>),
    Layout(Layout),
    /// The answer is the engine's `system_infos()`.
    SystemInfos,
}

/// The sample stored for a raw one, corrected against the previous sample.
pub open spec fn corrected_sample(raw: NetworkInfo, prev: NetworkInfo) -> NetworkInfo {
    NetworkInfo {
        tx_bytes: corrected(raw.tx_bytes as int, prev.tx_bytes as int) as i64,
        rx_bytes: corrected(raw.rx_bytes as int, prev.rx_bytes as int) as i64,
    }
}

/// Whether both counters of a raw sample can be corrected within `i64`.
pub open spec fn correctable(raw: NetworkInfo, prev: NetworkInfo) -> bool {
    &&& corrected(raw.tx_bytes as int, prev.tx_bytes as int) <= i64::MAX
    &&& corrected(raw.rx_bytes as int, prev.rx_bytes as int) <= i64::MAX
}

/// The rates between consecutive samples, of the transmit counter when `tx`
/// holds and of the receive counter otherwise.
pub open spec fn rate_series(items: Seq<NetworkInfo>, refresh_ms: int, tx: bool) -> Seq<i64> {
    if items.len() == 0 {
        Seq::empty()
    } else {
        Seq::new(
            (items.len() - 1) as nat,
            |i: int|
                if tx {
                    rate(items[i + 1].tx_bytes - items[i].tx_bytes, refresh_ms) as i64
                } else {
                    rate(items[i + 1].rx_bytes - items[i].rx_bytes, refresh_ms) as i64
                },
        )
    }
}

/// The outcome of evaluating `rules` in order against `touch`: each rule
/// that fires runs its actions.
pub open spec fn run_rules(rules: Seq<Rule>, touch: TouchStatus, o: Outcome) -> Outcome
    decreases rules.len(),
{
    if rules.len() == 0 {
        o
    } else {
        let before = run_rules(rules.drop_last(), touch, o);
        if rules.last().fires(touch) {
            run_actions(rules.last().actions(), before)
        } else {
            before
        }
    }
}

pub open spec fn any_fires(rules: Seq<Rule>, touch: TouchStatus) -> bool {
    exists|i: int| 0 <= i < rules.len() && #[trigger] rules[i].fires(touch)
}

/// A fresh history of `SYS_SAMPLES` slots after one snapshot or failed poll.
pub open spec fn fresh_history_after<S>(m: RingModel<S>, si: Option<S>) -> bool {
    &&& m.capacity() == SYS_SAMPLES
    &&& match si {
        Some(v) => m.cursor == 1 && m.live == 1 && m.item(-1) == v,
        None => m.cursor == 0 && m.live == 0,
    }
}

/// Every history is well formed with `SYS_SAMPLES` slots, and no two
/// sources share a name.
pub open spec fn sources_wf<S>(sources: Seq<SourceHistory<S>>) -> bool {
    &&& forall|i: int|
        0 <= i < sources.len() ==> {
            &&& (#[trigger] sources[i]).history.wf()
            &&& sources[i].history@.capacity() == SYS_SAMPLES
        }
    &&& forall|i: int, j: int|
        0 <= i < j < sources.len() ==> (#[trigger] sources[i]).source@
            != (#[trigger] sources[j]).source@
}

/// The single owner of the telemetry, the pending touches, the options and
/// the rules; every change goes through one of its methods, one at a time.
pub struct Engine<S> {
    rules: Vec<Rule>,
    params: Parameters,
    sys_infos: Vec<SourceHistory<S>>,
    seed: S,
}

impl<S> Engine<S> {
    pub closed spec fn rules(&self) -> Seq<Rule> {
        self.rules@
    }

    pub closed spec fn params(&self) -> Parameters {
        self.params
    }

    pub closed spec fn sources(&self) -> Seq<SourceHistory<S>> {
        self.sys_infos@
    }

    pub open spec fn wf(&self) -> bool {
        &&& self.params().wf()
        &&& sources_wf(self.sources())
    }

    /// The index of the history of `name`, if there is one.
    pub open spec fn has_source(&self, name: Seq<char>, i: int) -> bool {
        0 <= i < self.sources().len() && self.sources()[i].source@ == name
    }

    /// `next` is `self` after storing the raw sample, when `accepted`; the
    /// sample is accepted exactly when it can be corrected within `i64`.
    pub open spec fn net_step(&self, next: &Self, sample: NetworkInfo, accepted: bool) -> bool {
        let prev = self.params().net_infos@.item(-1);
        &&& accepted == correctable(sample, prev)
        &&& next.params().net_infos@ == if accepted {
            self.params().net_infos@.added(corrected_sample(sample, prev))
        } else {
            self.params().net_infos@
        }
        &&& next.params().touch_data == self.params().touch_data
        &&& next.params().options == self.params().options
        &&& next.rules() == self.rules()
        &&& next.sources() == self.sources()
    }

    /// `next` is `self` after a snapshot or a failed poll of `source`.
    pub open spec fn sys_info_step(&self, next: &Self, source: Seq<char>, si: Option<S>) -> bool {
        &&& next.params() == self.params()
        &&& next.rules() == self.rules()
        &&& if exists|i: int| self.has_source(source, i) {
            let i = choose|i: int| self.has_source(source, i);
            &&& next.sources().len() == self.sources().len()
            &&& forall|j: int|
                0 <= j < self.sources().len() && j != i ==> #[trigger] next.sources()[j]
                    == self.sources()[j]
            &&& next.sources()[i].source == self.sources()[i].source
            &&& next.sources()[i].history@ == match si {
                Some(v) => self.sources()[i].history@.added(v),
                None => self.sources()[i].history@.removed(),
            }
        } else {
            &&& next.sources().len() == self.sources().len() + 1
            &&& forall|j: int|
                0 <= j < self.sources().len() ==> #[trigger] next.sources()[j]
                    == self.sources()[j]
            &&& next.sources().last().source@ == source
            &&& fresh_history_after(next.sources().last().history@, si)
        }
    }

    /// `next` is `self` after `touch` was appended and the rules evaluated;
    /// `effects` are what the fired rules asked for.
    pub open spec fn touch_step(
        &self,
        next: &Self,
        touch: TouchStatus,
        effects: Seq<Effect>,
    ) -> bool {
        let o = run_rules(
            self.rules(),
            touch,
            outcome_of(self.params().options.main_layout, Seq::empty()),
        );
        &&& next.params().options.main_layout == o.layout
        &&& effects == o.effects
        &&& next.params().touch_data@ == if any_fires(self.rules(), touch) {
            Seq::empty()
        } else {
            self.params().touch_data@.push(touch)
        }
        &&& next.params().net_infos == self.params().net_infos
        &&& next.rules() == self.rules()
        &&& next.sources() == self.sources()
    }

    /// `next` is `self` with the pending touches, `taken`, handed out.
    pub open spec fn drain_step(&self, next: &Self, taken: Seq<TouchStatus>) -> bool {
        &&& taken == self.params().touch_data@
        &&& next.params().touch_data@.len() == 0
        &&& next.params().net_infos == self.params().net_infos
        &&& next.params().options == self.params().options
        &&& next.rules() == self.rules()
        &&& next.sources() == self.sources()
    }

    /// The throughput series of the stored network samples, oldest first.
    pub open spec fn tx_rx(&self, refresh_ms: int) -> (Seq<i64>, Seq<i64>) {
        let items = self.params().net_infos@.items();
        (rate_series(items, refresh_ms, true), rate_series(items, refresh_ms, false))
    }
}

impl<S: Clone> Engine<S> {
    /// An engine with no rules, fresh parameters, and one empty history for
    /// the local host whose slots are clones of `seed`.
    pub fn new(seed: S) -> (r: Self)
        ensures
            r.wf(),
            r.rules().len() == 0,
            r.params().net_infos@.live == 0,
            r.params().net_infos@.cursor == 0,
            forall|i: int|
                0 <= i < NET_SAMPLES ==> #[trigger] r.params().net_infos@.slots[i] == zero_sample(),
            r.params().touch_data@.len() == 0,
            r.params().options.main_layout == Layout::Vertical,
            r.sources().len() == 1,
            r.sources()[0].source@ == DEFAULT_HOST@,
            r.sources()[0].history@.live == 0,
            r.sources()[0].history@.cursor == 0,
    {
        let history = FixedRingBuffer::new(SYS_SAMPLES, seed.clone());
        let mut sys_infos: Vec<SourceHistory<S>> = Vec::new();
        sys_infos.push(SourceHistory { source: DEFAULT_HOST.to_owned(), history });
        Engine { rules: Vec::new(), params: Parameters::new(), sys_infos, seed }
    }

    /// Registers a rule after the ones already there.
    pub fn add_rule(&mut self, rule: Rule)
        requires
            old(self).wf(),
        ensures
            final(self).wf(),
            final(self).rules() == old(self).rules().push(rule),
            final(self).params() == old(self).params(),
            final(self).sources() == old(self).sources(),
    {
        self.rules.push(rule);
    }

    /// Stores a raw network sample, lifted past 32-bit counter wraps so that
    /// the stored counters never decrease; a sample whose lifted counters do
    /// not fit in `i64` is refused and nothing changes.
    pub fn net(&mut self, sample: NetworkInfo) -> (r: bool)
        requires
            old(self).wf(),
        ensures
            final(self).wf(),
            old(self).net_step(final(self), sample, r),
    {
        let prev = *self.params.net_infos.last();
        let tx = correct_counter(sample.tx_bytes, prev.tx_bytes);
        let rx = correct_counter(sample.rx_bytes, prev.rx_bytes);
        match (tx, rx) {
            (Some(tx_bytes), Some(rx_bytes)) => {
                self.params.net_infos.add(NetworkInfo { tx_bytes, rx_bytes });
                true
            },
            _ => false,
        }
    }

    /// The index of the history of `name`, if there is one.
    fn find_source(&self, name: &String) -> (r: Option<usize>)
        ensures
            r is Some ==> self.has_source(name@, r.unwrap() as int),
            r is None ==> forall|i: int| !self.has_source(name@, i),
    {
        let mut i: usize = 0;
        while i < self.sys_infos.len()
            invariant
                i <= self.sources().len(),
                forall|j: int| 0 <= j < i ==> self.sources()[j].source@ != name@,
            decreases self.sources().len() - i,
        {
            if self.sys_infos[i].source == *name {
                return Some(i);
            }
            i = i + 1;
        }
        None
    }

    /// Appends a snapshot to the history of its source, or forgets the
    /// oldest live one on a failed poll; a source seen for the first time
    /// gets a fresh history.
    pub fn sys_info(&mut self, asi: AnnotatedSystemInfo<S>)
        requires
            old(self).wf(),
        ensures
            final(self).wf(),
            old(self).sys_info_step(final(self), asi.source@, asi.si),
    {
        let found = self.find_source(&asi.source);
        let ghost old_sources = self.sources();
        let i: usize = match found {
            Some(i) => i,
            None => {
                let history = FixedRingBuffer::new(SYS_SAMPLES, self.seed.clone());
                self.sys_infos.push(SourceHistory { source: asi.source, history });
                self.sys_infos.len() - 1
            },
        };
        let ghost mid = self.sources();
        proof {
            assert forall|a: int, b: int| 0 <= a < b < mid.len() implies (#[trigger] mid[a]).source@
                != (#[trigger] mid[b]).source@ by {
                if found is None {
                    assert(mid[a] == old_sources[a]);
                    if b == old_sources.len() {
                        assert(!old(self).has_source(asi.source@, a));
                    }
                }
            }
        }
        let mut entry = self.sys_infos.remove(i);
        match asi.si {
            Some(v) => entry.history.add(v),
            None => entry.history.remove(),
        }
        self.sys_infos.insert(i, entry);
        proof {
            assert(self.sources() =~= mid.update(i as int, self.sources()[i as int]));
            assert(self.sources()[i as int].source == mid[i as int].source);
            if exists|k: int| old(self).has_source(asi.source@, k) {
                let k = choose|k: int| old(self).has_source(asi.source@, k);
                assert(old_sources[k].source@ == old_sources[i as int].source@);
                assert(k == i);
            }
            assert forall|a: int, b: int|
                0 <= a < b < self.sources().len() implies (#[trigger] self.sources()[a]).source@
                != (#[trigger] self.sources()[b]).source@ by {
                assert(self.sources()[a].source == mid[a].source);
                assert(self.sources()[b].source == mid[b].source);
            }
        }
    }

    /// Appends a touch and evaluates every rule against it in order; each
    /// rule that fires runs its actions, and if any fired the pending
    /// touches are cleared. Returns the effects the actions asked for.
    pub fn touch(&mut self, touch: TouchStatus) -> (r: Vec<Effect>)
        requires
            old(self).wf(),
        ensures
            final(self).wf(),
            old(self).touch_step(final(self), touch, r@),
    {
        self.params.touch_data.push(touch);
        self.event()
    }

    /// Evaluates the rules against the newest pending touch.
    fn event(&mut self) -> (r: Vec<Effect>)
        requires
            old(self).wf(),
            old(self).params.touch_data@.len() > 0,
        ensures
            final(self).wf(),
            ({
                let touch = old(self).params.touch_data@.last();
                let o = run_rules(
                    old(self).rules@,
                    touch,
                    outcome_of(old(self).params.options.main_layout, Seq::empty()),
                );
                &&& final(self).params.options.main_layout == o.layout
                &&& r@ == o.effects
                &&& final(self).params.touch_data@ == if any_fires(old(self).rules@, touch) {
                    Seq::empty()
                } else {
                    old(self).params.touch_data@
                }
                &&& final(self).params.net_infos == old(self).params.net_infos
                &&& final(self).rules == old(self).rules
                &&& final(self).sys_infos == old(self).sys_infos
            }),
    {
        let ghost touch = self.params.touch_data@.last();
        let ghost start = outcome_of(self.params.options.main_layout, Seq::empty());
        let mut effects: Vec<Effect> = Vec::new();
        let mut applied = false;
        let mut i: usize = 0;
        while i < self.rules.len()
            invariant
                i <= self.rules@.len(),
                self.rules == old(self).rules,
                self.sys_infos == old(self).sys_infos,
                self.params.net_infos == old(self).params.net_infos,
                self.params.touch_data == old(self).params.touch_data,
                self.params.touch_data@.len() > 0,
                touch == self.params.touch_data@.last(),
                start == outcome_of(old(self).params.options.main_layout, Seq::empty()),
                outcome_of(self.params.options.main_layout, effects@) == run_rules(
                    self.rules@.subrange(0, i as int),
                    touch,
                    start,
                ),
                applied == any_fires(self.rules@.subrange(0, i as int), touch),
            decreases self.rules@.len() - i,
        {
            let ghost pre = self.rules@.subrange(0, i as int);
            let ghost cur = self.rules@.subrange(0, i + 1);
            assert(cur.drop_last() == pre);
            assert(cur.last() == self.rules@[i as int]);
            let rule = &self.rules[i];
            if rule.check(&self.params) {
                rule.apply(&mut self.params, &mut effects);
                applied = true;
                assert(cur[i as int].fires(touch));
            } else {
                proof {
                    if any_fires(cur, touch) {
                        let k = choose|k: int| 0 <= k < cur.len() && #[trigger] cur[k].fires(touch);
                        assert(pre[k] == cur[k]);
                    }
                }
            }
            proof {
                if any_fires(pre, touch) {
                    let k = choose|k: int| 0 <= k < pre.len() && #[trigger] pre[k].fires(touch);
                    assert(cur[k] == pre[k]);
                }
            }
            i = i + 1;
        }
        assert(self.rules@.subrange(0, self.rules@.len() as int) == self.rules@);
        if applied {
            self.params.touch_data.clear();
        }
        effects
    }

    /// The two newest network samples, the older first.
    pub fn last_net_info(&self) -> (r: (NetworkInfo, NetworkInfo))
        requires
            self.wf(),
        ensures
            r.0 == self.params().net_infos@.item(-2),
            r.1 == self.params().net_infos@.item(-1),
    {
        (*self.params.net_infos.item(-2), *self.params.net_infos.last())
    }

    /// Hands out the pending touches and leaves none behind.
    pub fn touch_info(&mut self) -> (r: Vec<TouchStatus>)
        requires
            old(self).wf(),
        ensures
            final(self).wf(),
            old(self).drain_step(final(self), r@),
    {
        let mut v: Vec<TouchStatus> = Vec::new();
        std::mem::swap(&mut self.params.touch_data, &mut v);
        v
    }

    /// Transmit and receive throughput between consecutive stored samples,
    /// oldest first, per second over periods of `refresh_ms` milliseconds.
    pub fn get_net_tx_rx(&self, refresh_ms: u64) -> (r: (Vec<i64>, Vec<i64>))
        requires
            self.wf(),
        ensures
            r.0@ == self.tx_rx(refresh_ms as int).0,
            r.1@ == self.tx_rx(refresh_ms as int).1,
    {
        (
            net_bytes(&self.params.net_infos, refresh_ms, true),
            net_bytes(&self.params.net_infos, refresh_ms, false),
        )
    }

    pub fn get_main_layout(&self) -> (r: Layout)
        ensures
            r == self.params().options.main_layout,
    {
        self.params.options.main_layout
    }

    /// The snapshot history of every source, in the order the sources were
    /// first seen.
    pub fn system_infos(&self) -> (r: &Vec<SourceHistory<S>>)
        ensures
            r@ == self.sources(),
    {
        &self.sys_infos
    }

    /// Handles one command and answers it.
    pub fn handle_message(&mut self, cmd: Command<S>) -> (r: Response)
        requires
            old(self).wf(),
        ensures
            final(self).wf(),
            match cmd {
                Command::Net(s) => match r {
                    Response::NetworkData(tx, rx) => old(self).net_step(final(self), s, true)
                        && tx@ == final(self).tx_rx(NET_REFRESH_MS as int).0
                        && rx@ == final(self).tx_rx(NET_REFRESH_MS as int).1,
                    Response::Done => old(self).net_step(final(self), s, false),
                    _ => false,
                },
                Command::SysInfo(asi) => r is Done && old(self).sys_info_step(
                    final(self),
                    asi.source@,
                    asi.si,
                ),
                Command::Touch(t) => match r {
                    Response::Effects(e) => old(self).touch_step(final(self), t, e@),
                    _ => false,
                },
                Command::AddRule(rule) => r is Done && final(self).rules() == old(
                    self,
                ).rules().push(rule) && final(self).params() == old(self).params()
                    && final(self).sources() == old(self).sources(),
                Command::GetLastNetInfo => *final(self) == *old(self) && match r {
                    Response::LastNetInfo(a, b) => a == old(self).params().net_infos@.item(-2)
                        && b == old(self).params().net_infos@.item(-1),
                    _ => false,
                },
                Command::GetTouchInfo => match r {
                    Response::TouchInfo(v) => old(self).drain_step(final(self), v@),
                    _ => false,
                },
                Command::GetNetTxRx { refresh_ms } => *final(self) == *old(self) && match r {
                    Response::NetTxRx(tx, rx) => tx@ == old(self).tx_rx(refresh_ms as int).0
                        && rx@ == old(self).tx_rx(refresh_ms as int).1,
                    _ => false,
                },
                Command::GetLayout => *final(self) == *old(self) && r == Response::Layout(
                    old(self).params().options.main_layout,
                ),
                Command::GetSystemInfos => *final(self) == *old(self) && r is SystemInfos,
            },
    {
        match cmd {
            Command::Net(s) => {
                if self.net(s) {
                    let (tx, rx) = self.get_net_tx_rx(NET_REFRESH_MS);
                    Response::NetworkData(tx, rx)
                } else {
                    Response::Done
                }
            },
            Command::SysInfo(asi) => {
                self.sys_info(asi);
                Response::Done
            },
            Command::Touch(t) => Response::Effects(self.touch(t)),
            Command::AddRule(rule) => {
                self.add_rule(rule);
                Response::Done
            },
            Command::GetLastNetInfo => {
                let (a, b) = self.last_net_info();
                Response::LastNetInfo(a, b)
            },
            Command::GetTouchInfo => Response::TouchInfo(self.touch_info()),
            Command::GetNetTxRx { refresh_ms } => {
                let (tx, rx) = self.get_net_tx_rx(refresh_ms);
                Response::NetTxRx(tx, rx)
            },
            Command::GetLayout => Response::Layout(self.get_main_layout()),
            Command::GetSystemInfos => Response::SystemInfos,
        }
    }
}

/// Reading the pending touches consumes them: of two reads with no touch in
/// between, the first hands out every pending touch and the second none.
pub proof fn lemma_touch_info_twice<S>(
    e0: &Engine<S>,
    e1: &Engine<S>,
    e2: &Engine<S>,
    first: Seq<TouchStatus>,
    second: Seq<TouchStatus>,
)
    requires
        e0.drain_step(e1, first),
        e1.drain_step(e2, second),
    ensures
        first == e0.params().touch_data@,
        second.len() == 0,
        e2.params().touch_data@.len() == 0,
{
}

/// The rates between consecutive live samples of `data`.
fn net_bytes(data: &FixedRingBuffer<NetworkInfo>, refresh_ms: u64, tx: bool) -> (r: Vec<i64>)
    requires
        data.wf(),
    ensures
        r@ == rate_series(data@.items(), refresh_ms as int, tx),
{
    let ghost items = data@.items();
    let size = data.size();
    let mut out: Vec<i64> = Vec::new();
    if size == 0 {
        return out;
    }
    let mut i: isize = 1;
    while i < size
        invariant
            1 <= i <= size,
            size == data@.live,
            items == data@.items(),
            data.wf(),
            out@.len() == i - 1,
            forall|j: int|
                0 <= j < i - 1 ==> #[trigger] out@[j] == rate_series(
                    items,
                    refresh_ms as int,
                    tx,
                )[j],
        decreases size - i,
    {
        let a = data.item(i - size);
        let b = data.item(i - 1 - size);
        assert(*a == items[i as int] && *b == items[i - 1]);
        let delta: i128 = if tx {
            a.tx_bytes as i128 - b.tx_bytes as i128
        } else {
            a.rx_bytes as i128 - b.rx_bytes as i128
        };
        out.push(throughput(delta, refresh_ms));
        i = i + 1;
    }
    assert(out@ =~= rate_series(items, refresh_ms as int, tx));
    out
}

} // verus!
