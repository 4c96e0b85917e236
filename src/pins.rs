use vstd::prelude::*;

verus! {

/// Alternate-function role of a pin on the sensor bus.
#[derive(Clone, Copy, PartialEq, Eq, Structural, Debug)]
pub enum Role {
    /// The bus clock line (SCL).
    BusClock,
    /// The bus data line (SDA).
    BusData,
}

/// Port-B pin that carries the bus clock line.
pub const CLOCK_PIN: u8 = 6;

/// Port-B pin that carries the bus data line.
pub const DATA_PIN: u8 = 7;

/// A pin committed to one alternate-function role. Only `PinMux::mux`
/// makes one, so holding it proves the pin was configured for that role.
pub struct MuxedPin {
    pin: u8,
    role: Role,
}

impl MuxedPin {
    pub closed spec fn pin_spec(&self) -> u8 {
        self.pin
    }

    pub closed spec fn role_spec(&self) -> Role {
        self.role
    }

    /// Number of the pin in its port.
    pub fn pin(&self) -> (r: u8)
        ensures
            r == self.pin_spec(),
    {
        self.pin
    }

    /// Role the pin was committed to.
    pub fn role(&self) -> (r: Role)
        ensures
            r == self.role_spec(),
    {
        self.role
    }
}

/// Why a pin could not be muxed.
#[derive(Clone, Copy, PartialEq, Eq, Structural, Debug)]
pub enum MuxError {
    /// The pin was already given a role in this run.
    AlreadyMuxed,
}

/// The record of which pins of a port have been given which role.
pub struct PinMux {
    entries: Vec<(u8, Role)>,
}

/// Whether a pin appears in a list of assignments.
pub open spec fn assigned(entries: Seq<(u8, Role)>, pin: u8) -> bool {
    exists|i: int| 0 <= i < entries.len() && #[trigger] entries[i].0 == pin
}

impl PinMux {
    /// The assignments made so far, in the order they were made.
    pub closed spec fn view(&self) -> Seq<(u8, Role)> {
        self.entries@
    }

    /// No pin holds two assignments.
    pub open spec fn wf(&self) -> bool {
        forall|i: int, j: int|
            0 <= i < self@.len() && 0 <= j < self@.len() && #[trigger] self@[i].0 == #[trigger] self@[j].0
                ==> i == j
    }

    /// Whether a pin has been given a role.
    pub open spec fn is_muxed(&self, pin: u8) -> bool {
        assigned(self@, pin)
    }

    /// A port on which no pin has been muxed yet.
    pub fn new() -> (r: PinMux)
        ensures
            r@ == Seq::<(u8, Role)>::empty(),
            r.wf(),
    {
        PinMux { entries: Vec::new() }
    }

    /// Whether a pin has been given a role.
    pub fn contains(&self, pin: u8) -> (r: bool)
        ensures
            r == self.is_muxed(pin),
    {
        let mut i: usize = 0;
        while i < self.entries.len()
            invariant
                0 <= i <= self@.len(),
                forall|k: int| 0 <= k < i ==> self@[k].0 != pin,
            decreases self@.len() - i,
        {
            if self.entries[i].0 == pin {
                return true;
            }
            i = i + 1;
        }
        false
    }

    /// Commits a raw pin to a role. A pin is muxed once per run: a second
    /// request for it, in any role, is refused and changes nothing.
    pub fn mux(&mut self, pin: u8, role: Role) -> (r: Result<MuxedPin, MuxError>)
        requires
            old(self).wf(),
        ensures
            final(self).wf(),
            r is Ok <==> !old(self).is_muxed(pin),
            r is Ok ==> r->Ok_0.pin_spec() == pin && r->Ok_0.role_spec() == role
                && final(self)@ == old(self)@.push((pin, role)),
            r is Err ==> r->Err_0 == MuxError::AlreadyMuxed && final(self)@ == old(self)@,
            forall|p: u8| #[trigger] final(self).is_muxed(p) <==> (old(self).is_muxed(p) || (r is Ok && p == pin)),
    {
        if self.contains(pin) {
            return Err(MuxError::AlreadyMuxed);
        }
        self.entries.push((pin, role));
        assert forall|i: int, j: int|
            0 <= i < self@.len() && 0 <= j < self@.len() && #[trigger] self@[i].0 == #[trigger] self@[j].0
                implies i == j by {
            if i < old(self)@.len() && j == old(self)@.len() {
                assert(old(self)@[i].0 == pin);
            }
            if j < old(self)@.len() && i == old(self)@.len() {
                assert(old(self)@[j].0 == pin);
            }
        }
        assert forall|p: u8| #[trigger] self.is_muxed(p) <==> (old(self).is_muxed(p) || p == pin) by {
            if old(self).is_muxed(p) {
                let i = choose|i: int| 0 <= i < old(self)@.len() && #[trigger] old(self)@[i].0 == p;
                assert(self@[i].0 == p);
            }
            if p == pin {
                assert(self@[old(self)@.len() as int].0 == p);
            }
            if self.is_muxed(p) && p != pin {
                let j = choose|j: int| 0 <= j < self@.len() && #[trigger] self@[j].0 == p;
                assert(old(self)@[j].0 == p);
            }
        }
        Ok(MuxedPin { pin, role })
    }
}

/// A pin muxed once is never given a second role: within one well-formed
/// record, any two assignments of the same pin are the same assignment, so
/// they agree on the role.
pub proof fn lemma_one_role_per_pin(m: &PinMux, i: int, j: int)
    requires
        m.wf(),
        0 <= i < m@.len(),
        0 <= j < m@.len(),
        m@[i].0 == m@[j].0,
    ensures
        m@[i].1 == m@[j].1,
{
}

/// Once a pin has been muxed it stays muxed, and so does every pin muxed
/// before it: by the contract of `mux`, every later request for any of them,
/// in either role, is refused.
pub proof fn lemma_muxed_pin_stays_taken(before: &PinMux, after: &PinMux, pin: u8, role: Role, other: u8)
    requires
        after@ == before@.push((pin, role)),
    ensures
        after.is_muxed(pin),
        before.is_muxed(other) ==> after.is_muxed(other),
{
    assert(after@[before@.len() as int].0 == pin);
    if before.is_muxed(other) {
        let i = choose|i: int| 0 <= i < before@.len() && #[trigger] before@[i].0 == other;
        assert(after@[i].0 == other);
    }
}

} // verus!
