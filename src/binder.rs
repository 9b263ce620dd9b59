use vstd::prelude::*;

use crate::descriptor::{SramError, SramMacro};
use crate::naming::{lemma_pin_name_injective, pin_name, spec_pin_name, NamingSchema, Port, PortBit};

verus! {

/// A subcircuit definition as read from a netlist file: its name and its pins,
/// named as authored.
#[derive(Clone, Debug, PartialEq, Eq, Hash)]
pub struct Subcircuit {
    pub name: String,
    pub pins: Vec<String>,
}

/// One bit of the interface connected to one pin of the subcircuit.
#[derive(Clone, Debug, PartialEq, Eq, Hash)]
pub struct Connection {
    pub pin: String,
    pub bit: PortBit,
}

/// A subcircuit instance with every interface bit connected to its pin.
#[derive(Clone, Debug, PartialEq, Eq, Hash)]
pub struct BoundCell {
    pub schema: NamingSchema,
    pub subcircuit: String,
    pub connections: Vec<Connection>,
}

/// The number of connections of a macro with address width `aw`, mask width
/// `mw` and data width `w`.
pub open spec fn plan_len(aw: nat, mw: nat, w: nat) -> nat {
    aw + 1 + mw + 2 * w + 3
}

/// The `i`-th connection's bit: `addr[0..aw)`, `we`, `wmask[0..mw)`, then
/// `din[j]` and `dout[j]` in turn for `j` in `[0, w)`, then `vss`, `vdd`, `clk`.
pub open spec fn plan_bit(aw: nat, mw: nat, w: nat, i: int) -> PortBit {
    let data = aw + 1 + mw;
    if i < aw {
        PortBit { port: Port::Addr, index: i as usize }
    } else if i == aw {
        PortBit { port: Port::We, index: 0 }
    } else if i < data {
        PortBit { port: Port::Wmask, index: (i - aw - 1) as usize }
    } else if i < data + 2 * w {
        let j = i - data;
        PortBit { port: if j % 2 == 0 { Port::Din } else { Port::Dout }, index: (j / 2) as usize }
    } else if i == data + 2 * w {
        PortBit { port: Port::Vss, index: 0 }
    } else if i == data + 2 * w + 1 {
        PortBit { port: Port::Vdd, index: 0 }
    } else {
        PortBit { port: Port::Clk, index: 0 }
    }
}

pub open spec fn connection_plan(aw: nat, mw: nat, w: nat) -> Seq<PortBit> {
    Seq::new(plan_len(aw, mw, w), |i: int| plan_bit(aw, mw, w, i))
}

/// Whether `b` is a bit of the interface: a bus bit below the bus's width, or
/// the bit `0` of a scalar port.
pub open spec fn in_interface(aw: nat, mw: nat, w: nat, b: PortBit) -> bool {
    match b.port {
        Port::Addr => b.index < aw,
        Port::Wmask => b.index < mw,
        Port::Din | Port::Dout => b.index < w,
        _ => b.index == 0,
    }
}

/// Where a bit of the interface stands in the connection plan.
pub open spec fn plan_pos(aw: nat, mw: nat, w: nat, b: PortBit) -> int {
    let data = (aw + 1 + mw) as int;
    match b.port {
        Port::Addr => b.index as int,
        Port::We => aw as int,
        Port::Wmask => aw + 1 + b.index as int,
        Port::Din => data + 2 * b.index as int,
        Port::Dout => data + 2 * b.index as int + 1,
        Port::Vss => data + 2 * w,
        Port::Vdd => data + 2 * w + 1,
        Port::Clk => data + 2 * w + 2,
    }
}

/// Each connection as a pair of pin name and bit.
pub open spec fn named(schema: NamingSchema, bits: Seq<PortBit>) -> Seq<(Seq<char>, PortBit)> {
    bits.map_values(|b: PortBit| (spec_pin_name(schema, b), b))
}

/// The same connections with every pin renamed under `target`.
pub open spec fn renamed(conns: Seq<(Seq<char>, PortBit)>, target: NamingSchema) -> Seq<(Seq<char>, PortBit)> {
    conns.map_values(|c: (Seq<char>, PortBit)| (spec_pin_name(target, c.1), c.1))
}

pub open spec fn spec_has_pin(sub: Subcircuit, pin: Seq<char>) -> bool {
    exists|k: int| 0 <= k < sub.pins@.len() && (#[trigger] sub.pins@[k])@ == pin
}

/// `subs[i]` is the first subcircuit called `name`.
pub open spec fn is_first_named(subs: Seq<Subcircuit>, name: Seq<char>, i: int) -> bool {
    &&& 0 <= i < subs.len()
    &&& subs[i].name@ == name
    &&& forall|j: int| 0 <= j < i ==> (#[trigger] subs[j]).name@ != name
}

/// The first subcircuit called `name` has a pin, named as authored, for every
/// bit in `bits`.
pub open spec fn provides(subs: Seq<Subcircuit>, name: Seq<char>, bits: Seq<PortBit>) -> bool {
    exists|i: int|
        is_first_named(subs, name, i) && forall|j: int|
            0 <= j < bits.len() ==> spec_has_pin(
                #[trigger] subs[i],
                spec_pin_name(NamingSchema::RawElectrical, bits[j]),
            )
}

impl SramMacro {
    /// The bits of the interface in the order in which they are connected.
    pub open spec fn spec_plan(&self) -> Seq<PortBit> {
        connection_plan(self.spec_addr_width(), self.mask_width as nat, self.width as nat)
    }

    /// The bits of the interface in the order in which they are connected.
    pub fn plan(&self) -> (r: Vec<PortBit>)
        requires
            self.depth >= 1,
        ensures
            r@ == self.spec_plan(),
    {
        let aw = self.addr_width();
        let ghost (gaw, gmw, gw) = (aw as nat, self.mask_width as nat, self.width as nat);
        let mut v: Vec<PortBit> = Vec::new();
        let mut i: usize = 0;
        while i < aw
            invariant
                gaw == aw,
                gmw == self.mask_width,
                gw == self.width,
                i <= aw,
                v@.len() == i,
                forall|k: int| 0 <= k < v@.len() ==> v@[k] == plan_bit(gaw, gmw, gw, k),
            decreases aw - i,
        {
            v.push(PortBit { port: Port::Addr, index: i });
            i = i + 1;
        }
        v.push(PortBit { port: Port::We, index: 0 });
        let mut i: usize = 0;
        while i < self.mask_width
            invariant
                gaw == aw,
                gmw == self.mask_width,
                gw == self.width,
                i <= self.mask_width,
                v@.len() == gaw + 1 + i,
                forall|k: int| 0 <= k < v@.len() ==> v@[k] == plan_bit(gaw, gmw, gw, k),
            decreases self.mask_width - i,
        {
            v.push(PortBit { port: Port::Wmask, index: i });
            i = i + 1;
        }
        let mut i: usize = 0;
        while i < self.width
            invariant
                gaw == aw,
                gmw == self.mask_width,
                gw == self.width,
                i <= self.width,
                v@.len() == gaw + 1 + gmw + 2 * i,
                forall|k: int| 0 <= k < v@.len() ==> v@[k] == plan_bit(gaw, gmw, gw, k),
            decreases self.width - i,
        {
            v.push(PortBit { port: Port::Din, index: i });
            v.push(PortBit { port: Port::Dout, index: i });
            i = i + 1;
        }
        v.push(PortBit { port: Port::Vss, index: 0 });
        v.push(PortBit { port: Port::Vdd, index: 0 });
        v.push(PortBit { port: Port::Clk, index: 0 });
        assert(v@ =~= self.spec_plan());
        v
    }
}


/// The index of the first subcircuit called `name`, if any.
pub fn find_subcircuit(subs: &Vec<Subcircuit>, name: &String) -> (r: Option<usize>)
    ensures
        r matches Some(i) ==> is_first_named(subs@, name@, i as int),
        r is None ==> forall|j: int| 0 <= j < subs@.len() ==> (#[trigger] subs@[j]).name@ != name@,
{
    let mut i: usize = 0;
    while i < subs.len()
        invariant
            i <= subs@.len(),
            forall|j: int| 0 <= j < i ==> (#[trigger] subs@[j]).name@ != name@,
        decreases subs@.len() - i,
    {
        if subs[i].name == *name {
            return Some(i);
        }
        i = i + 1;
    }
    None
}

impl Subcircuit {
    /// Whether the subcircuit has a pin called `pin`.
    pub fn has_pin(&self, pin: &String) -> (r: bool)
        ensures
            r == spec_has_pin(*self, pin@),
    {
        let mut k: usize = 0;
        while k < self.pins.len()
            invariant
                k <= self.pins@.len(),
                forall|j: int| 0 <= j < k ==> (#[trigger] self.pins@[j])@ != pin@,
            decreases self.pins@.len() - k,
        {
            if self.pins[k] == *pin {
                return true;
            }
            k = k + 1;
        }
        false
    }
}

impl BoundCell {
    /// Each connection as a pair of pin name and bit.
    pub open spec fn spec_connections(&self) -> Seq<(Seq<char>, PortBit)> {
        self.connections@.map_values(|c: Connection| (c.pin@, c.bit))
    }

    /// Every connection's pin is the name of its bit under the cell's schema.
    pub open spec fn spec_is_consistent(&self) -> bool {
        forall|k: int|
            0 <= k < self.connections@.len() ==> (#[trigger] self.connections@[k]).pin@
                == spec_pin_name(self.schema, self.connections@[k].bit)
    }

    /// The same cell with every pin renamed under `target`: the bits and the
    /// order of the connections stay as they are.
    pub fn convert(&self, target: NamingSchema) -> (r: BoundCell)
        ensures
            r.schema == target,
            r.subcircuit@ == self.subcircuit@,
            r.spec_connections() == renamed(self.spec_connections(), target),
            r.spec_is_consistent(),
    {
        let mut conns: Vec<Connection> = Vec::new();
        let mut k: usize = 0;
        while k < self.connections.len()
            invariant
                k <= self.connections@.len(),
                conns@.len() == k,
                forall|j: int|
                    0 <= j < k ==> (#[trigger] conns@[j]).pin@ == spec_pin_name(
                        target,
                        self.connections@[j].bit,
                    ) && conns@[j].bit == self.connections@[j].bit,
            decreases self.connections@.len() - k,
        {
            let bit = self.connections[k].bit;
            conns.push(Connection { pin: pin_name(target, bit), bit });
            k = k + 1;
        }
        let r = BoundCell { schema: target, subcircuit: self.subcircuit.clone(), connections: conns };
        assert(r.spec_connections() =~= renamed(self.spec_connections(), target));
        r
    }
}

impl SramMacro {
    /// Binds the macro to its subcircuit among `subs`, the subcircuits of its
    /// netlist file. Takes the first subcircuit whose name is exactly
    /// `subcircuit_name()`, checks that it has every pin of the interface
    /// (named as authored) and connects each bit of the interface to its pin,
    /// named under `schema`.
    pub fn bind(&self, schema: NamingSchema, subs: &Vec<Subcircuit>) -> (r: Result<BoundCell, SramError>)
        ensures
            r == Err::<BoundCell, SramError>(SramError::InvalidParameter) <==> !self.spec_is_valid(),
            r == Err::<BoundCell, SramError>(SramError::NetlistLoadError) <==> self.spec_is_valid()
                && !provides(subs@, self.spec_name(), self.spec_plan()),
            r is Ok <==> self.spec_is_valid() && provides(subs@, self.spec_name(), self.spec_plan()),
            r matches Ok(c) ==> {
                &&& c.schema == schema
                &&& c.subcircuit@ == self.spec_name()
                &&& c.spec_connections() == named(schema, self.spec_plan())
                &&& c.spec_is_consistent()
            },
    {
        if let Err(e) = self.validate() {
            return Err(e);
        }
        let name = match self.subcircuit_name() {
            Ok(n) => n,
            Err(e) => {
                return Err(e);
            },
        };
        let idx = match find_subcircuit(subs, &name) {
            Some(i) => i,
            None => {
                return Err(SramError::NetlistLoadError);
            },
        };
        let sub = &subs[idx];
        let bits = self.plan();
        let ghost plan = self.spec_plan();
        let mut conns: Vec<Connection> = Vec::new();
        let mut k: usize = 0;
        while k < bits.len()
            invariant
                bits@ == plan,
                plan == self.spec_plan(),
                is_first_named(subs@, name@, idx as int),
                sub == subs@[idx as int],
                name@ == self.spec_name(),
                self.spec_is_valid(),
                k <= bits@.len(),
                conns@.len() == k,
                forall|j: int|
                    0 <= j < k ==> spec_has_pin(
                        *sub,
                        spec_pin_name(NamingSchema::RawElectrical, #[trigger] plan[j]),
                    ),
                forall|j: int|
                    0 <= j < k ==> (#[trigger] conns@[j]).pin@ == spec_pin_name(schema, plan[j])
                        && conns@[j].bit == plan[j],
            decreases bits@.len() - k,
        {
            let bit = bits[k];
            let raw = pin_name(NamingSchema::RawElectrical, bit);
            if !sub.has_pin(&raw) {
                proof {
                    assert forall|i: int| #[trigger]
                        is_first_named(subs@, name@, i) implies !(forall|j: int|
                        0 <= j < plan.len() ==> spec_has_pin(
                            #[trigger] subs@[i],
                            spec_pin_name(NamingSchema::RawElectrical, plan[j]),
                        )) by {
                        assert(i == idx);
                        assert(!spec_has_pin(subs@[i], spec_pin_name(NamingSchema::RawElectrical, plan[k as int])));
                    }
                }
                return Err(SramError::NetlistLoadError);
            }
            conns.push(Connection { pin: pin_name(schema, bit), bit });
            k = k + 1;
        }
        let c = BoundCell { schema, subcircuit: name, connections: conns };
        assert(c.spec_connections() =~= named(schema, plan));
        assert(provides(subs@, self.spec_name(), plan)) by {
            assert(is_first_named(subs@, name@, idx as int));
        }
        Ok(c)
    }
}


proof fn lemma_plan_bit_position(aw: nat, mw: nat, w: nat, i: int)
    requires
        aw <= usize::MAX,
        mw <= usize::MAX,
        w <= usize::MAX,
        0 <= i < plan_len(aw, mw, w),
    ensures
        in_interface(aw, mw, w, plan_bit(aw, mw, w, i)),
        plan_bit(aw, mw, w, i).is_canonical(),
        plan_pos(aw, mw, w, plan_bit(aw, mw, w, i)) == i,
{
}

proof fn lemma_plan_pos_bit(aw: nat, mw: nat, w: nat, b: PortBit)
    requires
        in_interface(aw, mw, w, b),
    ensures
        0 <= plan_pos(aw, mw, w, b) < plan_len(aw, mw, w),
        plan_bit(aw, mw, w, plan_pos(aw, mw, w, b)) == b,
{
}

/// A valid macro is bound through exactly
/// `addr_width + width + 1 + mask_width + 1 + width + 1 + 1` connections:
/// each bit of the interface once, no other bit, and no pin name twice.
pub proof fn bind_connects_each_pin_once(m: SramMacro, schema: NamingSchema)
    requires
        m.spec_is_valid(),
    ensures
        named(schema, m.spec_plan()).len() == m.spec_addr_width() + m.width + 1 + m.mask_width
            + 1 + m.width + 1 + 1,
        forall|i: int, j: int|
            0 <= i < j < m.spec_plan().len() ==> (#[trigger] named(schema, m.spec_plan())[i]).0
                != (#[trigger] named(schema, m.spec_plan())[j]).0,
        forall|i: int|
            0 <= i < m.spec_plan().len() ==> in_interface(
                m.spec_addr_width(),
                m.mask_width as nat,
                m.width as nat,
                #[trigger] m.spec_plan()[i],
            ),
        forall|b: PortBit|
            in_interface(m.spec_addr_width(), m.mask_width as nat, m.width as nat, b) ==> exists|
                i: int,
            |
                0 <= i < m.spec_plan().len() && #[trigger] m.spec_plan()[i] == b,
{
    let aw = m.spec_addr_width();
    let mw = m.mask_width as nat;
    let w = m.width as nat;
    let plan = m.spec_plan();
    let names = named(schema, plan);
    crate::descriptor::lemma_addr_width_fits(m.depth as nat);
    assert forall|i: int, j: int| 0 <= i < j < plan.len() implies (#[trigger] names[i]).0
        != (#[trigger] names[j]).0 by {
        lemma_plan_bit_position(aw, mw, w, i);
        lemma_plan_bit_position(aw, mw, w, j);
        if names[i].0 == names[j].0 {
            lemma_pin_name_injective(schema, plan[i], plan[j]);
        }
    }
    assert forall|i: int| 0 <= i < plan.len() implies in_interface(aw, mw, w, #[trigger] plan[i]) by {
        lemma_plan_bit_position(aw, mw, w, i);
    }
    assert forall|b: PortBit| in_interface(aw, mw, w, b) implies exists|i: int|
        0 <= i < plan.len() && #[trigger] plan[i] == b by {
        lemma_plan_pos_bit(aw, mw, w, b);
        let i = plan_pos(aw, mw, w, b);
        assert(plan[i] == b);
    }
}

/// Renaming a consistent cell's pins under any schema and then back under
/// its own gives back the connections it had.
pub proof fn conversion_round_trip(c: BoundCell, target: NamingSchema)
    requires
        c.spec_is_consistent(),
    ensures
        renamed(renamed(c.spec_connections(), target), c.schema) == c.spec_connections(),
{
    assert(renamed(renamed(c.spec_connections(), target), c.schema) =~= c.spec_connections());
}

} // verus!
