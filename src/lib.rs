//! Parameterised SRAM macro: derived port widths, the name of the macro's
//! subcircuit, and the binding of every interface bit to a pin of that
//! subcircuit under one of two pin-naming schemas.
mod binder;
mod decimal;
mod descriptor;
mod naming;

pub use binder::{
    bind_connects_each_pin_once, connection_plan, conversion_round_trip, find_subcircuit,
    in_interface, is_first_named, named, plan_bit, plan_len, plan_pos, provides, renamed,
    spec_has_pin, BoundCell, Connection, Subcircuit,
};
pub use decimal::{decimal, digit_char, lemma_decimal_injective, push_decimal};
pub use descriptor::{
    address_width_is_exact_log, check_power_of_two, is_power_of_two, log2_floor, name_prefix,
    spec_subcircuit_name, subcircuit_name_identifies_parameters, PortShape, SramError, SramIo,
    SramMacro,
};
pub use naming::{
    lemma_pin_name_injective, pin_name, spec_pin_name, stem, Direction, NamingSchema, Port, PortBit,
};
