//! Scan-chain configuration: per-TAP geometry, device count and selected index.

use vstd::prelude::*;

verus! {

/// Describes the position of a TAP in the JTAG chain.
#[derive(Debug, Clone, Copy, PartialEq, Eq, Structural)]
pub struct TapConfig {
    /// The number of bits in the IR register; zero is the uninitialized
    /// sentinel written before discovery has run.
    pub ir_length: u8,
    /// The number of bypass bits before the IR register.
    pub ir_before: u16,
    /// The number of bypass bits after the IR register.
    pub ir_after: u16,
}

impl Default for TapConfig {
    /// The uninitialized entry used to fill a fresh scan chain.
    fn default() -> (r: TapConfig)
        ensures
            r == (TapConfig { ir_length: 0, ir_before: 0, ir_after: 0 }),
    {
        TapConfig { ir_length: 0, ir_before: 0, ir_after: 0 }
    }
}

/// JTAG interface configuration: a bounded, capacity-fixed scan-chain table
/// owned by one probe session.
pub struct Config {
    /// The number of devices on the JTAG chain.
    pub device_count: u8,
    /// The position of the selected device.
    pub index: u8,
    /// TAPs on the scan chain. Its length is the fixed capacity, set once at
    /// construction; the library never grows or shrinks it.
    pub scan_chain: Vec<TapConfig>,
}

impl Config {
    /// Well-formedness: the capacity is positive and both the device count
    /// and the selected index stay inside it. Constructors establish this and
    /// the two mutators preserve it.
    pub open spec fn wf(self) -> bool {
        &&& self.scan_chain.len() >= 1
        &&& (self.device_count as int) < self.scan_chain@.len()
        &&& (self.index as int) < self.scan_chain@.len()
    }

    /// Whether the selected index addresses one of the devices on the chain,
    /// as every composed shift operation needs.
    pub open spec fn index_selected(self) -> bool {
        self.index < self.device_count
    }

    /// The entry of the currently selected TAP.
    pub open spec fn spec_current_tap(self) -> TapConfig {
        self.scan_chain@[self.index as int]
    }

    /// The number of bypass bits after the selected TAP during a DR scan:
    /// one per device that follows it on the chain.
    pub open spec fn bypass_after(self) -> int {
        self.device_count - self.index - 1
    }

    /// Creates a new, empty JTAG interface configuration.
    ///
    /// The probe will be able to connect to JTAG chains with up to
    /// `capacity` TAPs; the table never grows past it.
    pub fn new(capacity: usize) -> (r: Config)
        requires
            capacity >= 1,
        ensures
            r.wf(),
            r.device_count == 0,
            r.index == 0,
            r.scan_chain@.len() == capacity,
            forall|i: int|
                0 <= i < capacity ==> r.scan_chain@[i] == (TapConfig {
                    ir_length: 0,
                    ir_before: 0,
                    ir_after: 0,
                }),
    {
        let mut scan_chain: Vec<TapConfig> = Vec::new();
        let mut i: usize = 0;
        while i < capacity
            invariant
                i <= capacity,
                scan_chain@.len() == i,
                forall|k: int|
                    0 <= k < i ==> scan_chain@[k] == (TapConfig {
                        ir_length: 0,
                        ir_before: 0,
                        ir_after: 0,
                    }),
            decreases capacity - i,
        {
            scan_chain.push(TapConfig { ir_length: 0, ir_before: 0, ir_after: 0 });
            i += 1;
        }
        Config { device_count: 0, index: 0, scan_chain }
    }

    /// Returns information about the currently selected TAP.
    pub fn current_tap(&self) -> (r: TapConfig)
        requires
            self.wf(),
        ensures
            r == self.spec_current_tap(),
    {
        self.scan_chain[self.index as usize]
    }

    /// Sets the number of devices on the chain.
    ///
    /// If the count does not fit the fixed capacity, it returns `false` and
    /// leaves the configuration unchanged.
    pub fn update_device_count(&mut self, count: u8) -> (r: bool)
        requires
            old(self).wf(),
        ensures
            final(self).wf(),
            r == ((count as int) < old(self).scan_chain@.len()),
            r ==> *final(self) == (Config { device_count: count, ..*old(self) }),
            !r ==> *final(self) == *old(self),
    {
        if count as usize >= self.scan_chain.len() {
            return false;
        }
        self.device_count = count;
        true
    }

    /// Selects the device at the given index.
    ///
    /// If the index is out of bounds, it returns `false` and does not change
    /// the selected device.
    pub fn select_index(&mut self, index: u8) -> (r: bool)
        requires
            old(self).wf(),
        ensures
            final(self).wf(),
            r == (index < old(self).device_count),
            r ==> *final(self) == (Config { index, ..*old(self) }),
            r ==> final(self).index_selected(),
            !r ==> *final(self) == *old(self),
    {
        if index >= self.device_count {
            return false;
        }
        if index != self.index {
            self.index = index;
        }
        true
    }
}

/// Bypass accounting: for every selected index, the bypass bits before the
/// target, the target itself and the bypass bits after it account for the
/// whole chain.
pub proof fn lemma_bypass_accounting(index: u8, device_count: u8)
    requires
        index < device_count,
    ensures
        index + 1 + (device_count - index - 1) == device_count,
{
}

} // verus!
