use crate::ring_buffer::FixedRingBuffer;
use crate::touch::TouchStatus;
use vstd::prelude::*;

verus! {

/// How many network samples are kept.
pub const NET_SAMPLES: usize = 81;

/// The sample that an empty network history is filled with.
pub open spec fn zero_sample() -> NetworkInfo {
    NetworkInfo { tx_bytes: 0, rx_bytes: 0 }
}

/// Cumulative byte counters of a network interface at one moment.
#[derive(Clone, Copy, Debug, PartialEq, Eq, Structural)]
pub struct NetworkInfo {
    pub tx_bytes: i64,
    pub rx_bytes: i64,
}

impl NetworkInfo {
    pub fn new(tx_bytes: i64, rx_bytes: i64) -> (r: Self)
        ensures
            r.tx_bytes == tx_bytes,
            r.rx_bytes == rx_bytes,
    {
        NetworkInfo { tx_bytes, rx_bytes }
    }
}

/// Memory and swap use, in bytes.
#[derive(Clone, Copy, Debug, PartialEq, Eq, Structural)]
pub struct MemInfo {
    pub used_mem: u64,
    pub total_mem: u64,
    pub used_swap: u64,
    pub total_swap: u64,
}

/// Throughput series handed to the drawing code.
#[derive(Clone, Debug)]
pub struct RenderState {
    pub net_tx: Vec<i64>,
    pub net_rx: Vec<i64>,
}

/// Which way the main screen is split.
#[derive(Clone, Copy, Debug, PartialEq, Eq, Structural)]
pub enum Layout {
    Horizontal,
    Vertical,
}

impl Layout {
    pub open spec fn toggled(self) -> Layout {
        match self {
            Layout::Horizontal => Layout::Vertical,
            Layout::Vertical => Layout::Horizontal,
        }
    }
}

/// Display options that touch gestures can change.
#[derive(Clone, Copy, Debug, PartialEq, Eq, Structural)]
pub struct Options {
    pub main_layout: Layout,
}

impl Options {
    pub fn new() -> (r: Self)
        ensures
            r.main_layout == Layout::Vertical,
    {
        Options { main_layout: Layout::Vertical }
    }
}

/// The mutable state that rules act on.
pub struct Parameters {
    pub net_infos: FixedRingBuffer<NetworkInfo>,
    pub touch_data: Vec<TouchStatus>,
    pub options: Options,
}

impl Parameters {
    pub open spec fn wf(&self) -> bool {
        &&& self.net_infos.wf()
        &&& self.net_infos@.capacity() == NET_SAMPLES
    }

    /// Empty network history of zero samples, no pending touch, vertical layout.
    pub fn new() -> (r: Self)
        ensures
            r.wf(),
            r.net_infos@.cursor == 0,
            r.net_infos@.live == 0,
            forall|i: int| 0 <= i < NET_SAMPLES ==> #[trigger] r.net_infos@.slots[i] == zero_sample(),
            r.touch_data@.len() == 0,
            r.options.main_layout == Layout::Vertical,
    {
        Parameters {
            net_infos: FixedRingBuffer::new(NET_SAMPLES, NetworkInfo::new(0, 0)),
            touch_data: Vec::new(),
            options: Options::new(),
        }
    }
}

} // verus!
