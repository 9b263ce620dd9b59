use vstd::prelude::*;

use crate::decimal::{decimal, is_digit, lemma_decimal_split, push_decimal};

verus! {

/// The port groups of the macro's logical interface.
#[derive(Clone, Copy, Debug, PartialEq, Eq, Hash, Structural)]
pub enum Port {
    Addr,
    Din,
    We,
    Wmask,
    Clk,
    Dout,
    Vdd,
    Vss,
}

/// The direction of a port, seen from outside the macro.
#[derive(Clone, Copy, Debug, PartialEq, Eq, Hash, Structural)]
pub enum Direction {
    Input,
    Output,
    InOut,
}

/// One bit of one port group. Scalar ports have the single bit `0`.
#[derive(Clone, Copy, Debug, PartialEq, Eq, Hash, Structural)]
pub struct PortBit {
    pub port: Port,
    pub index: usize,
}

/// The two pin-naming conventions a bound cell can use.
#[derive(Clone, Copy, Debug, PartialEq, Eq, Hash, Structural)]
pub enum NamingSchema {
    /// Pin names as authored in the subcircuit file: `ADDR[3]`, `WE`.
    RawElectrical,
    /// Lower-case pin names of the process kit's netlists: `addr[3]`, `we`.
    PdkNormalized,
}

impl Port {
    pub open spec fn spec_is_bus(self) -> bool {
        match self {
            Port::Addr | Port::Din | Port::Wmask | Port::Dout => true,
            _ => false,
        }
    }

    /// Whether the port is a bus with indexed bits, rather than a single bit.
    pub fn is_bus(&self) -> (r: bool)
        ensures
            r == self.spec_is_bus(),
    {
        match self {
            Port::Addr | Port::Din | Port::Wmask | Port::Dout => true,
            _ => false,
        }
    }

    pub open spec fn spec_direction(self) -> Direction {
        match self {
            Port::Dout => Direction::Output,
            Port::Vdd | Port::Vss => Direction::InOut,
            _ => Direction::Input,
        }
    }

    /// `dout` is an output, the supplies are bidirectional, all else is input.
    pub fn direction(&self) -> (r: Direction)
        ensures
            r == self.spec_direction(),
    {
        match self {
            Port::Dout => Direction::Output,
            Port::Vdd | Port::Vss => Direction::InOut,
            _ => Direction::Input,
        }
    }
}

impl PortBit {
    /// A scalar port is named by its single bit `0`.
    pub open spec fn is_canonical(self) -> bool {
        self.port.spec_is_bus() || self.index == 0
    }
}

/// The name of a port group under a schema, without any bit index.
pub open spec fn stem(schema: NamingSchema, port: Port) -> Seq<char> {
    match schema {
        NamingSchema::RawElectrical => match port {
            Port::Addr => seq!['A', 'D', 'D', 'R'],
            Port::Din => seq!['D', 'I', 'N'],
            Port::We => seq!['W', 'E'],
            Port::Wmask => seq!['W', 'M', 'A', 'S', 'K'],
            Port::Clk => seq!['C', 'L', 'K'],
            Port::Dout => seq!['D', 'O', 'U', 'T'],
            Port::Vdd => seq!['V', 'D', 'D'],
            Port::Vss => seq!['V', 'S', 'S'],
        },
        NamingSchema::PdkNormalized => match port {
            Port::Addr => seq!['a', 'd', 'd', 'r'],
            Port::Din => seq!['d', 'i', 'n'],
            Port::We => seq!['w', 'e'],
            Port::Wmask => seq!['w', 'm', 'a', 's', 'k'],
            Port::Clk => seq!['c', 'l', 'k'],
            Port::Dout => seq!['d', 'o', 'u', 't'],
            Port::Vdd => seq!['v', 'd', 'd'],
            Port::Vss => seq!['v', 's', 's'],
        },
    }
}

/// The pin that a bit connects to: `STEM[i]` for a bus bit, `STEM` for a
/// scalar port.
pub open spec fn spec_pin_name(schema: NamingSchema, bit: PortBit) -> Seq<char> {
    if bit.port.spec_is_bus() {
        stem(schema, bit.port) + seq!['['] + decimal(bit.index as nat) + seq![']']
    } else {
        stem(schema, bit.port)
    }
}

/// Under either schema, distinct bits have distinct pin names.
pub proof fn lemma_pin_name_injective(schema: NamingSchema, a: PortBit, b: PortBit)
    requires
        a.is_canonical(),
        b.is_canonical(),
        spec_pin_name(schema, a) == spec_pin_name(schema, b),
    ensures
        a == b,
{
    let na = spec_pin_name(schema, a);
    let nb = spec_pin_name(schema, b);
    let sa = stem(schema, a.port);
    let sb = stem(schema, b.port);
    assert(sa.len() >= 2 && sb.len() >= 2);
    assert(na[0] == sa[0] && na[1] == sa[1]);
    assert(nb[0] == sb[0] && nb[1] == sb[1]);
    if a.port == b.port && a.port.spec_is_bus() {
        let p = sa + seq!['['];
        assert(!is_digit(seq![']'][0]));
        lemma_decimal_split(p, a.index as nat, seq![']'], b.index as nat, seq![']']);
    }
}

fn stem_str(schema: NamingSchema, port: Port) -> (r: &'static str)
    ensures
        r@ == stem(schema, port),
{
    proof {
        reveal_strlit("ADDR");
        reveal_strlit("DIN");
        reveal_strlit("WE");
        reveal_strlit("WMASK");
        reveal_strlit("CLK");
        reveal_strlit("DOUT");
        reveal_strlit("VDD");
        reveal_strlit("VSS");
        reveal_strlit("addr");
        reveal_strlit("din");
        reveal_strlit("we");
        reveal_strlit("wmask");
        reveal_strlit("clk");
        reveal_strlit("dout");
        reveal_strlit("vdd");
        reveal_strlit("vss");
    }
    let r = match schema {
        NamingSchema::RawElectrical => match port {
            Port::Addr => "ADDR",
            Port::Din => "DIN",
            Port::We => "WE",
            Port::Wmask => "WMASK",
            Port::Clk => "CLK",
            Port::Dout => "DOUT",
            Port::Vdd => "VDD",
            Port::Vss => "VSS",
        },
        NamingSchema::PdkNormalized => match port {
            Port::Addr => "addr",
            Port::Din => "din",
            Port::We => "we",
            Port::Wmask => "wmask",
            Port::Clk => "clk",
            Port::Dout => "dout",
            Port::Vdd => "vdd",
            Port::Vss => "vss",
        },
    };
    assert(r@ =~= stem(schema, port));
    r
}

/// The name of the pin that `bit` connects to under `schema`.
pub fn pin_name(schema: NamingSchema, bit: PortBit) -> (r: String)
    ensures
        r@ == spec_pin_name(schema, bit),
{
    let mut s = String::from_str(stem_str(schema, bit.port));
    if bit.port.is_bus() {
        proof {
            reveal_strlit("[");
            reveal_strlit("]");
        }
        s.append("[");
        push_decimal(&mut s, bit.index);
        s.append("]");
    }
    s
}

} // verus!
