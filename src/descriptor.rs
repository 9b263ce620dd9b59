use vstd::prelude::*;

use vstd::arithmetic::power2::{lemma2_to64, lemma_pow2_pos, lemma_pow2_unfold, pow2};

use crate::decimal::{decimal, is_digit, lemma_decimal_injective, lemma_decimal_split, push_decimal};
use crate::naming::{Direction, Port};

verus! {

/// Why a macro could not be described or bound.
#[derive(Clone, Copy, Debug, PartialEq, Eq, Hash, Structural)]
pub enum SramError {
    /// A parameter breaks a numeric invariant of the descriptor.
    InvalidParameter,
    /// The netlist lacks the macro's subcircuit, or the subcircuit lacks a pin
    /// of the macro's interface.
    NetlistLoadError,
    /// A pin was connected twice, or a bit outside the declared widths was
    /// referenced: a defect in code that connects pins on its own. `bind`
    /// never returns it.
    BindingError,
}

/// The parameters of one SRAM macro.
#[derive(Clone, Debug, PartialEq, Eq, Hash)]
pub struct SramMacro {
    /// Data bits per word.
    pub width: usize,
    /// Number of words; a power of two.
    pub depth: usize,
    /// Number of write-mask groups; divides `width`.
    pub mask_width: usize,
    /// Column multiplexing factor; only part of the subcircuit's name.
    pub mux_ratio: usize,
    /// The netlist file that defines the macro's subcircuit.
    pub netlist_path: String,
}

/// The shape of one port group: its direction and its number of bits.
#[derive(Clone, Copy, Debug, PartialEq, Eq, Hash, Structural)]
pub struct PortShape {
    pub direction: Direction,
    pub width: usize,
}

/// The logical interface of a macro, one shape per port group.
#[derive(Clone, Copy, Debug, PartialEq, Eq, Hash, Structural)]
pub struct SramIo {
    pub addr: PortShape,
    pub din: PortShape,
    pub we: PortShape,
    pub wmask: PortShape,
    pub clk: PortShape,
    pub dout: PortShape,
    pub vdd: PortShape,
    pub vss: PortShape,
}

/// `floor(log2(n))`, with `0` for `n <= 1`.
pub open spec fn log2_floor(n: nat) -> nat
    decreases n,
{
    if n <= 1 {
        0
    } else {
        1 + log2_floor(n / 2)
    }
}

pub open spec fn is_power_of_two(n: nat) -> bool {
    exists|k: nat| pow2(k) == n
}

/// The characters `sram22_` that start every macro's subcircuit name.
pub open spec fn name_prefix() -> Seq<char> {
    seq!['s', 'r', 'a', 'm', '2', '2', '_']
}

/// `sram22_{depth}x{width}m{mux}w{words}`.
pub open spec fn spec_subcircuit_name(depth: nat, width: nat, mux: nat, words: nat) -> Seq<char> {
    name_prefix() + (decimal(depth) + (seq!['x'] + (decimal(width) + (seq!['m'] + (decimal(mux)
        + (seq!['w'] + decimal(words)))))))
}

/// Exactly one `k` has `2^k == depth`, and it is `log2_floor(depth)`.
pub(crate) proof fn lemma_log2_of_pow2(depth: nat, k: nat)
    requires
        pow2(k) == depth,
    ensures
        log2_floor(depth) == k,
    decreases k,
{
    lemma2_to64();
    if k > 0 {
        lemma_pow2_unfold(k);
        lemma_pow2_pos((k - 1) as nat);
        lemma_log2_of_pow2(pow2((k - 1) as nat), (k - 1) as nat);
    }
}

proof fn lemma_log2_below(n: nat)
    requires
        n >= 1,
    ensures
        log2_floor(n) < n,
    decreases n,
{
    if n > 1 {
        lemma_log2_below(n / 2);
    }
}

/// A number above one is a power of two exactly when it is even and its half is.
proof fn lemma_power_of_two_halves(n: nat)
    ensures
        n == 0 ==> !is_power_of_two(n),
        n == 1 ==> is_power_of_two(n),
        n >= 2 ==> (is_power_of_two(n) <==> (n % 2 == 0 && is_power_of_two(n / 2))),
{
    lemma2_to64();
    if n == 0 {
        assert forall|k: nat| pow2(k) != n by {
            lemma_pow2_pos(k);
        }
    }
    if n == 1 {
        assert(pow2(0) == n);
    }
    if n >= 2 {
        if is_power_of_two(n) {
            let k = choose|k: nat| pow2(k) == n;
            if k == 0 {
                assert(false);
            }
            lemma_pow2_unfold(k);
            assert(pow2((k - 1) as nat) == n / 2);
        }
        if n % 2 == 0 && is_power_of_two(n / 2) {
            let k = choose|k: nat| pow2(k) == n / 2;
            lemma_pow2_unfold(k + 1);
            assert(pow2(k + 1) == n);
        }
    }
}

/// Whether `n` is a power of two.
pub fn check_power_of_two(n: usize) -> (r: bool)
    ensures
        r == is_power_of_two(n as nat),
{
    proof {
        lemma_power_of_two_halves(n as nat);
    }
    if n == 0 {
        return false;
    }
    let mut d: usize = n;
    while d > 1 && d % 2 == 0
        invariant
            d >= 1,
            is_power_of_two(d as nat) == is_power_of_two(n as nat),
        decreases d,
    {
        proof {
            lemma_power_of_two_halves(d as nat);
        }
        d = d / 2;
    }
    proof {
        lemma_power_of_two_halves(d as nat);
    }
    d == 1
}

impl SramMacro {
    pub fn new(width: usize, depth: usize, mask_width: usize, mux_ratio: usize, netlist_path: String) -> (r: SramMacro)
        ensures
            r.width == width,
            r.depth == depth,
            r.mask_width == mask_width,
            r.mux_ratio == mux_ratio,
            r.netlist_path@ == netlist_path@,
    {
        SramMacro { width, depth, mask_width, mux_ratio, netlist_path }
    }

    /// The name under which the macro is known as a block: `sram_macro`.
    pub fn id() -> (r: &'static str)
        ensures
            r@ == seq!['s', 'r', 'a', 'm', '_', 'm', 'a', 'c', 'r', 'o'],
    {
        proof {
            reveal_strlit("sram_macro");
        }
        "sram_macro"
    }

    /// Every parameter is positive, `depth` is a power of two and
    /// `mask_width` divides `width`.
    pub open spec fn spec_is_valid(&self) -> bool {
        &&& self.width >= 1
        &&& self.mux_ratio >= 1
        &&& self.mask_width >= 1
        &&& self.width % self.mask_width == 0
        &&& is_power_of_two(self.depth as nat)
    }

    pub open spec fn spec_addr_width(&self) -> nat {
        log2_floor(self.depth as nat)
    }

    /// The name of the macro's subcircuit, defined when `mask_width` divides
    /// `width`.
    pub open spec fn spec_name(&self) -> Seq<char> {
        spec_subcircuit_name(
            self.depth as nat,
            self.width as nat,
            self.mux_ratio as nat,
            (self.width / self.mask_width) as nat,
        )
    }

    /// The width of the address port, in bits: `floor(log2(depth))`. A depth
    /// that is not a power of two is under-counted here; `validate` and `bind`
    /// reject such depths.
    pub fn addr_width(&self) -> (r: usize)
        requires
            self.depth >= 1,
        ensures
            r == self.spec_addr_width(),
            is_power_of_two(self.depth as nat) ==> pow2(r as nat) == self.depth,
            forall|k: nat| #[trigger] pow2(k) == self.depth ==> r == k,
    {
        let mut d: usize = self.depth;
        let mut k: usize = 0;
        proof {
            lemma_log2_below(self.depth as nat);
        }
        while d > 1
            invariant
                d >= 1,
                k + log2_floor(d as nat) == log2_floor(self.depth as nat),
                log2_floor(self.depth as nat) < self.depth,
            decreases d,
        {
            d = d / 2;
            k = k + 1;
        }
        proof {
            if is_power_of_two(self.depth as nat) {
                let j = choose|j: nat| pow2(j) == self.depth as nat;
                lemma_log2_of_pow2(self.depth as nat, j);
            }
            assert forall|j: nat| #[trigger] pow2(j) == self.depth implies k == j by {
                lemma_log2_of_pow2(self.depth as nat, j);
            }
        }
        k
    }

    /// Checks every numeric invariant of the parameters.
    pub fn validate(&self) -> (r: Result<(), SramError>)
        ensures
            r is Ok <==> self.spec_is_valid(),
            r is Err ==> r == Err::<(), SramError>(SramError::InvalidParameter),
            r is Ok ==> self.depth >= 1,
    {
        proof {
            lemma_power_of_two_halves(self.depth as nat);
        }
        if self.width == 0 || self.mux_ratio == 0 || self.mask_width == 0 {
            return Err(SramError::InvalidParameter);
        }
        if self.width % self.mask_width != 0 || !check_power_of_two(self.depth) {
            return Err(SramError::InvalidParameter);
        }
        Ok(())
    }

    /// The interface of the macro. Buses are as wide as the parameters say;
    /// `we`, `clk`, `vdd` and `vss` are single bits.
    pub fn io(&self) -> (r: SramIo)
        requires
            self.depth >= 1,
        ensures
            r.addr == (PortShape { direction: Direction::Input, width: self.spec_addr_width() as usize }),
            r.din == (PortShape { direction: Direction::Input, width: self.width }),
            r.we == (PortShape { direction: Direction::Input, width: 1 }),
            r.wmask == (PortShape { direction: Direction::Input, width: self.mask_width }),
            r.clk == (PortShape { direction: Direction::Input, width: 1 }),
            r.dout == (PortShape { direction: Direction::Output, width: self.width }),
            r.vdd == (PortShape { direction: Direction::InOut, width: 1 }),
            r.vss == (PortShape { direction: Direction::InOut, width: 1 }),
    {
        SramIo {
            addr: PortShape { direction: Direction::Input, width: self.addr_width() },
            din: PortShape { direction: Direction::Input, width: self.width },
            we: PortShape { direction: Direction::Input, width: 1 },
            wmask: PortShape { direction: Direction::Input, width: self.mask_width },
            clk: PortShape { direction: Direction::Input, width: 1 },
            dout: PortShape { direction: Direction::Output, width: self.width },
            vdd: PortShape { direction: Direction::InOut, width: 1 },
            vss: PortShape { direction: Direction::InOut, width: 1 },
        }
    }

    /// The name of the macro's subcircuit,
    /// `sram22_{depth}x{width}m{mux_ratio}w{width / mask_width}`; an error
    /// when `mask_width` does not divide `width`.
    pub fn subcircuit_name(&self) -> (r: Result<String, SramError>)
        ensures
            r is Err <==> (self.mask_width == 0 || self.width % self.mask_width != 0),
            r is Err ==> r == Err::<String, SramError>(SramError::InvalidParameter),
            r matches Ok(s) ==> s@ == self.spec_name(),
    {
        if self.mask_width == 0 || self.width % self.mask_width != 0 {
            return Err(SramError::InvalidParameter);
        }
        let words = self.width / self.mask_width;
        proof {
            reveal_strlit("sram22_");
            reveal_strlit("x");
            reveal_strlit("m");
            reveal_strlit("w");
        }
        let mut s = String::from_str("sram22_");
        push_decimal(&mut s, self.depth);
        s.append("x");
        push_decimal(&mut s, self.width);
        s.append("m");
        push_decimal(&mut s, self.mux_ratio);
        s.append("w");
        push_decimal(&mut s, words);
        assert(s@ =~= self.spec_name());
        Ok(s)
    }
}

impl SramIo {
    /// The shape of one port group.
    pub fn shape(&self, port: Port) -> (r: PortShape)
        ensures
            r == self.spec_shape(port),
    {
        match port {
            Port::Addr => self.addr,
            Port::Din => self.din,
            Port::We => self.we,
            Port::Wmask => self.wmask,
            Port::Clk => self.clk,
            Port::Dout => self.dout,
            Port::Vdd => self.vdd,
            Port::Vss => self.vss,
        }
    }

    pub open spec fn spec_shape(&self, port: Port) -> PortShape {
        match port {
            Port::Addr => self.addr,
            Port::Din => self.din,
            Port::We => self.we,
            Port::Wmask => self.wmask,
            Port::Clk => self.clk,
            Port::Dout => self.dout,
            Port::Vdd => self.vdd,
            Port::Vss => self.vss,
        }
    }
}

/// A decimal number followed by a separator, read from the front.
proof fn lemma_number_then_separator(a: nat, r1: Seq<char>, b: nat, r2: Seq<char>)
    requires
        r1.len() >= 1,
        r2.len() >= 1,
        !is_digit(r1[0]),
        !is_digit(r2[0]),
        decimal(a) + r1 == decimal(b) + r2,
    ensures
        a == b,
        r1 == r2,
{
    let e = Seq::<char>::empty();
    assert(e + decimal(a) + r1 =~= decimal(a) + r1);
    assert(e + decimal(b) + r2 =~= decimal(b) + r2);
    lemma_decimal_split(e, a, r1, b, r2);
}

/// The address width of a power-of-two depth is its exact base-two logarithm.
pub proof fn address_width_is_exact_log(m: SramMacro, k: nat)
    requires
        pow2(k) == m.depth,
    ensures
        m.spec_addr_width() == k,
{
    lemma_log2_of_pow2(m.depth as nat, k);
}

/// The subcircuit name depends on the four numeric parameters alone, and
/// tells apart any two descriptors whose numeric parameters differ.
pub proof fn subcircuit_name_identifies_parameters(a: SramMacro, b: SramMacro)
    requires
        a.width >= 1,
        a.mask_width >= 1,
        a.width % a.mask_width == 0,
        b.width >= 1,
        b.mask_width >= 1,
        b.width % b.mask_width == 0,
    ensures
        a.spec_name() == b.spec_name() <==> (a.depth == b.depth && a.width == b.width
            && a.mux_ratio == b.mux_ratio && a.mask_width == b.mask_width),
{
    if a.spec_name() == b.spec_name() {
        let p = name_prefix();
        let wa = (a.width / a.mask_width) as nat;
        let wb = (b.width / b.mask_width) as nat;
        let t4a = seq!['w'] + decimal(wa);
        let t4b = seq!['w'] + decimal(wb);
        let t3a = seq!['m'] + (decimal(a.mux_ratio as nat) + t4a);
        let t3b = seq!['m'] + (decimal(b.mux_ratio as nat) + t4b);
        let t2a = seq!['x'] + (decimal(a.width as nat) + t3a);
        let t2b = seq!['x'] + (decimal(b.width as nat) + t3b);
        let t1a = decimal(a.depth as nat) + t2a;
        let t1b = decimal(b.depth as nat) + t2b;
        assert(t1a =~= a.spec_name().subrange(p.len() as int, a.spec_name().len() as int));
        assert(t1b =~= b.spec_name().subrange(p.len() as int, b.spec_name().len() as int));
        lemma_number_then_separator(a.depth as nat, t2a, b.depth as nat, t2b);
        assert(t2a.drop_first() =~= decimal(a.width as nat) + t3a);
        assert(t2b.drop_first() =~= decimal(b.width as nat) + t3b);
        lemma_number_then_separator(a.width as nat, t3a, b.width as nat, t3b);
        assert(t3a.drop_first() =~= decimal(a.mux_ratio as nat) + t4a);
        assert(t3b.drop_first() =~= decimal(b.mux_ratio as nat) + t4b);
        lemma_number_then_separator(a.mux_ratio as nat, t4a, b.mux_ratio as nat, t4b);
        assert(t4a.drop_first() =~= decimal(wa));
        assert(t4b.drop_first() =~= decimal(wb));
        lemma_decimal_injective(wa, wb);
        let q = wa as int;
        assert(a.width == a.mask_width * q) by (nonlinear_arith)
            requires
                q == a.width as int / a.mask_width as int,
                a.width % a.mask_width == 0,
                a.mask_width >= 1,
        ;
        assert(b.width == b.mask_width * q) by (nonlinear_arith)
            requires
                q == b.width as int / b.mask_width as int,
                b.width % b.mask_width == 0,
                b.mask_width >= 1,
        ;
        assert(a.mask_width == b.mask_width) by (nonlinear_arith)
            requires
                a.width == a.mask_width * q,
                b.width == b.mask_width * q,
                a.width == b.width,
                a.width >= 1,
        ;
    }
}


/// The address width of a depth held in a `usize` fits in a `usize`.
pub(crate) proof fn lemma_addr_width_fits(depth: nat)
    requires
        depth <= usize::MAX,
    ensures
        log2_floor(depth) <= usize::MAX,
{
    if depth >= 1 {
        lemma_log2_below(depth);
    }
}

} // verus!
