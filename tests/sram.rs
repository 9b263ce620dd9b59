use sram_macro::{
    check_power_of_two, pin_name, push_decimal, BoundCell, Connection, Direction, NamingSchema,
    Port, PortBit, SramError, SramMacro, Subcircuit,
};

fn sram_512x64m4w8() -> SramMacro {
    SramMacro::new(64, 512, 8, 4, String::from("sram22_512x64m4w8/pex/schematic.pex.spice"))
}

fn raw_pins(m: &SramMacro) -> Vec<String> {
    let mut pins = Vec::new();
    for i in 0..m.addr_width() {
        pins.push(format!("ADDR[{i}]"));
    }
    pins.push(String::from("WE"));
    for i in 0..m.mask_width {
        pins.push(format!("WMASK[{i}]"));
    }
    for i in 0..m.width {
        pins.push(format!("DIN[{i}]"));
        pins.push(format!("DOUT[{i}]"));
    }
    pins.push(String::from("VSS"));
    pins.push(String::from("VDD"));
    pins.push(String::from("CLK"));
    pins
}

fn netlist_for(m: &SramMacro) -> Vec<Subcircuit> {
    vec![
        Subcircuit { name: String::from("sram22_256x32m4w8"), pins: vec![String::from("WE")] },
        Subcircuit { name: m.subcircuit_name().unwrap(), pins: raw_pins(m) },
    ]
}

fn pins_of(cell: &BoundCell) -> Vec<String> {
    cell.connections.iter().map(|c| c.pin.clone()).collect()
}

#[test]
fn address_width_of_512_words() {
    assert_eq!(sram_512x64m4w8().addr_width(), 9);
}

#[test]
fn address_width_of_powers_of_two() {
    for k in 0..20usize {
        let m = SramMacro::new(8, 1usize << k, 1, 1, String::new());
        assert_eq!(m.addr_width(), k);
    }
}

#[test]
fn address_width_truncates_other_depths() {
    let m = SramMacro::new(8, 600, 1, 1, String::new());
    assert_eq!(m.addr_width(), 9);
    assert_eq!(m.validate(), Err(SramError::InvalidParameter));
}

#[test]
fn subcircuit_name_of_512x64m4w8() {
    assert_eq!(sram_512x64m4w8().subcircuit_name(), Ok(String::from("sram22_512x64m4w8")));
}

#[test]
fn subcircuit_name_changes_with_each_numeric_field() {
    let base = sram_512x64m4w8().subcircuit_name().unwrap();
    let names = [
        SramMacro::new(32, 512, 8, 4, String::new()).subcircuit_name().unwrap(),
        SramMacro::new(64, 1024, 8, 4, String::new()).subcircuit_name().unwrap(),
        SramMacro::new(64, 512, 4, 4, String::new()).subcircuit_name().unwrap(),
        SramMacro::new(64, 512, 8, 8, String::new()).subcircuit_name().unwrap(),
    ];
    assert_eq!(names[0], "sram22_512x32m4w4");
    assert_eq!(names[1], "sram22_1024x64m4w8");
    assert_eq!(names[2], "sram22_512x64m4w16");
    assert_eq!(names[3], "sram22_512x64m8w8");
    for n in names.iter() {
        assert_ne!(*n, base);
    }
    let other_path = SramMacro::new(64, 512, 8, 4, String::from("elsewhere.spice"));
    assert_eq!(other_path.subcircuit_name().unwrap(), base);
}

#[test]
fn subcircuit_name_rejects_non_dividing_mask() {
    let m = SramMacro::new(64, 512, 7, 4, String::new());
    assert_eq!(m.subcircuit_name(), Err(SramError::InvalidParameter));
    let zero = SramMacro::new(64, 512, 0, 4, String::new());
    assert_eq!(zero.subcircuit_name(), Err(SramError::InvalidParameter));
}

#[test]
fn bind_rejects_non_dividing_mask() {
    let m = SramMacro::new(64, 512, 7, 4, String::new());
    let subs = netlist_for(&sram_512x64m4w8());
    assert_eq!(m.bind(NamingSchema::RawElectrical, &subs), Err(SramError::InvalidParameter));
}

#[test]
fn bind_rejects_depth_that_is_not_a_power_of_two() {
    let m = SramMacro::new(64, 500, 8, 4, String::new());
    assert_eq!(m.bind(NamingSchema::RawElectrical, &vec![]), Err(SramError::InvalidParameter));
}

#[test]
fn validate_accepts_and_rejects() {
    assert_eq!(sram_512x64m4w8().validate(), Ok(()));
    assert_eq!(SramMacro::new(0, 512, 8, 4, String::new()).validate(), Err(SramError::InvalidParameter));
    assert_eq!(SramMacro::new(64, 0, 8, 4, String::new()).validate(), Err(SramError::InvalidParameter));
    assert_eq!(SramMacro::new(64, 512, 8, 0, String::new()).validate(), Err(SramError::InvalidParameter));
    assert_eq!(SramMacro::new(64, 512, 7, 4, String::new()).validate(), Err(SramError::InvalidParameter));
}

#[test]
fn power_of_two_check() {
    assert!(!check_power_of_two(0));
    assert!(check_power_of_two(1));
    assert!(check_power_of_two(2));
    assert!(!check_power_of_two(3));
    assert!(check_power_of_two(512));
    assert!(!check_power_of_two(768));
    assert!(check_power_of_two(1usize << 63));
    assert!(!check_power_of_two(usize::MAX));
}

#[test]
fn bind_raw_connects_149_pins() {
    let m = sram_512x64m4w8();
    let cell = m.bind(NamingSchema::RawElectrical, &netlist_for(&m)).unwrap();
    assert_eq!(cell.schema, NamingSchema::RawElectrical);
    assert_eq!(cell.subcircuit, "sram22_512x64m4w8");
    assert_eq!(cell.connections.len(), 149);
    let pins = pins_of(&cell);
    let mut expected = Vec::new();
    for i in 0..9 {
        expected.push(format!("ADDR[{i}]"));
    }
    expected.push(String::from("WE"));
    for i in 0..8 {
        expected.push(format!("WMASK[{i}]"));
    }
    for i in 0..64 {
        expected.push(format!("DIN[{i}]"));
        expected.push(format!("DOUT[{i}]"));
    }
    expected.push(String::from("VSS"));
    expected.push(String::from("VDD"));
    expected.push(String::from("CLK"));
    assert_eq!(pins, expected);
    let mut sorted = pins.clone();
    sorted.sort();
    sorted.dedup();
    assert_eq!(sorted.len(), 149);
    assert_eq!(cell.connections[0].bit, PortBit { port: Port::Addr, index: 0 });
    assert_eq!(cell.connections[9].bit, PortBit { port: Port::We, index: 0 });
    assert_eq!(cell.connections[148].bit, PortBit { port: Port::Clk, index: 0 });
}

#[test]
fn bind_normalized_connects_lower_case_pins() {
    let m = sram_512x64m4w8();
    let raw = m.bind(NamingSchema::RawElectrical, &netlist_for(&m)).unwrap();
    let cell = m.bind(NamingSchema::PdkNormalized, &netlist_for(&m)).unwrap();
    assert_eq!(cell.schema, NamingSchema::PdkNormalized);
    assert_eq!(cell.connections.len(), 149);
    let pins = pins_of(&cell);
    let lowered: Vec<String> = pins_of(&raw).iter().map(|p| p.to_lowercase()).collect();
    assert_eq!(pins, lowered);
    assert_eq!(pins[0], "addr[0]");
    assert_eq!(pins[9], "we");
    assert_eq!(pins[10], "wmask[0]");
    assert_eq!(pins[18], "din[0]");
    assert_eq!(pins[19], "dout[0]");
    assert_eq!(pins[146], "vss");
    assert_eq!(pins[147], "vdd");
    assert_eq!(pins[148], "clk");
    for (a, b) in raw.connections.iter().zip(cell.connections.iter()) {
        assert_eq!(a.bit, b.bit);
    }
}

#[test]
fn bind_without_named_subcircuit_fails_to_load() {
    let m = sram_512x64m4w8();
    let subs = vec![Subcircuit { name: String::from("SRAM22_512X64M4W8"), pins: raw_pins(&m) }];
    assert_eq!(m.bind(NamingSchema::RawElectrical, &subs), Err(SramError::NetlistLoadError));
    assert_eq!(m.bind(NamingSchema::PdkNormalized, &vec![]), Err(SramError::NetlistLoadError));
}

#[test]
fn bind_with_missing_pin_fails_to_load() {
    let m = sram_512x64m4w8();
    let mut pins = raw_pins(&m);
    pins.retain(|p| p != "DOUT[63]");
    let subs = vec![Subcircuit { name: String::from("sram22_512x64m4w8"), pins }];
    assert_eq!(m.bind(NamingSchema::PdkNormalized, &subs), Err(SramError::NetlistLoadError));
}

#[test]
fn bind_uses_first_subcircuit_of_that_name() {
    let m = sram_512x64m4w8();
    let subs = vec![
        Subcircuit { name: String::from("sram22_512x64m4w8"), pins: vec![String::from("WE")] },
        Subcircuit { name: String::from("sram22_512x64m4w8"), pins: raw_pins(&m) },
    ];
    assert_eq!(m.bind(NamingSchema::RawElectrical, &subs), Err(SramError::NetlistLoadError));
}

#[test]
fn bind_is_repeatable() {
    let m = sram_512x64m4w8();
    let subs = netlist_for(&m);
    assert_eq!(m.bind(NamingSchema::RawElectrical, &subs), m.bind(NamingSchema::RawElectrical, &subs));
}

#[test]
fn conversion_round_trip_keeps_connections() {
    let m = sram_512x64m4w8();
    let raw = m.bind(NamingSchema::RawElectrical, &netlist_for(&m)).unwrap();
    let normalized = raw.convert(NamingSchema::PdkNormalized);
    let direct = m.bind(NamingSchema::PdkNormalized, &netlist_for(&m)).unwrap();
    assert_eq!(normalized, direct);
    assert_ne!(pins_of(&normalized), pins_of(&raw));
    let back = normalized.convert(NamingSchema::RawElectrical);
    assert_eq!(back, raw);
}

#[test]
fn conversion_renames_every_pin() {
    let cell = BoundCell {
        schema: NamingSchema::PdkNormalized,
        subcircuit: String::from("sub"),
        connections: vec![
            Connection { pin: String::from("addr[12]"), bit: PortBit { port: Port::Addr, index: 12 } },
            Connection { pin: String::from("vdd"), bit: PortBit { port: Port::Vdd, index: 0 } },
        ],
    };
    let raw = cell.convert(NamingSchema::RawElectrical);
    assert_eq!(pins_of(&raw), vec![String::from("ADDR[12]"), String::from("VDD")]);
    assert_eq!(raw.subcircuit, "sub");
}

#[test]
fn smallest_macro_binds() {
    let m = SramMacro::new(1, 1, 1, 1, String::new());
    assert_eq!(m.addr_width(), 0);
    let subs = vec![Subcircuit { name: m.subcircuit_name().unwrap(), pins: raw_pins(&m) }];
    assert_eq!(subs[0].name, "sram22_1x1m1w1");
    let cell = m.bind(NamingSchema::RawElectrical, &subs).unwrap();
    assert_eq!(
        pins_of(&cell),
        vec!["WE", "WMASK[0]", "DIN[0]", "DOUT[0]", "VSS", "VDD", "CLK"]
            .into_iter()
            .map(String::from)
            .collect::<Vec<_>>()
    );
}

#[test]
fn io_shapes() {
    let io = sram_512x64m4w8().io();
    assert_eq!(io.addr.width, 9);
    assert_eq!(io.din.width, 64);
    assert_eq!(io.dout.width, 64);
    assert_eq!(io.wmask.width, 8);
    assert_eq!(io.we.width, 1);
    assert_eq!(io.clk.width, 1);
    assert_eq!(io.dout.direction, Direction::Output);
    assert_eq!(io.vdd.direction, Direction::InOut);
    assert_eq!(io.vss.direction, Direction::InOut);
    assert_eq!(io.addr.direction, Direction::Input);
    assert_eq!(io.shape(Port::Wmask), io.wmask);
    assert_eq!(Port::Dout.direction(), Direction::Output);
    assert!(Port::Addr.is_bus());
    assert!(!Port::Clk.is_bus());
}

#[test]
fn pin_names_under_both_schemas() {
    let bit = PortBit { port: Port::Wmask, index: 107 };
    assert_eq!(pin_name(NamingSchema::RawElectrical, bit), "WMASK[107]");
    assert_eq!(pin_name(NamingSchema::PdkNormalized, bit), "wmask[107]");
    let we = PortBit { port: Port::We, index: 0 };
    assert_eq!(pin_name(NamingSchema::RawElectrical, we), "WE");
    assert_eq!(pin_name(NamingSchema::PdkNormalized, we), "we");
}

#[test]
fn decimal_digits() {
    let mut s = String::from("n=");
    push_decimal(&mut s, 0);
    assert_eq!(s, "n=0");
    let mut t = String::new();
    push_decimal(&mut t, 1090);
    assert_eq!(t, "1090");
    let mut u = String::new();
    push_decimal(&mut u, usize::MAX);
    assert_eq!(u, usize::MAX.to_string());
}

#[test]
fn block_id() {
    assert_eq!(SramMacro::id(), "sram_macro");
}
