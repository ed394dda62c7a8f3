use vstd::prelude::*;
use crate::parser::ComponentType;
use crate::text::same_text;

verus! {

/// The kind a type word names, with its short aliases, in lower case.
pub open spec fn kind_for_word(w: Seq<char>) -> Option<ComponentType> {
    if w == "resistor"@ || w == "r"@ {
        Some(ComponentType::Resistor)
    } else
    if w == "capacitor"@ || w == "c"@ {
        Some(ComponentType::Capacitor)
    } else
    if w == "inductor"@ || w == "l"@ {
        Some(ComponentType::Inductor)
    } else
    if w == "potentiometer"@ || w == "pot"@ {
        Some(ComponentType::Potentiometer)
    } else
    if w == "transformer"@ || w == "t"@ {
        Some(ComponentType::Transformer)
    } else
    if w == "dc_voltage"@ || w == "dc_v"@ || w == "vdc"@ {
        Some(ComponentType::DcVoltage)
    } else
    if w == "dc_current"@ || w == "dc_i"@ || w == "idc"@ {
        Some(ComponentType::DcCurrent)
    } else
    if w == "ac_voltage"@ || w == "ac_v"@ || w == "vac"@ {
        Some(ComponentType::AcVoltage)
    } else
    if w == "ac_current"@ || w == "ac_i"@ || w == "iac"@ {
        Some(ComponentType::AcCurrent)
    } else
    if w == "signal_generator"@ || w == "sig_gen"@ || w == "sg"@ {
        Some(ComponentType::SignalGenerator)
    } else
    if w == "diode"@ || w == "d"@ {
        Some(ComponentType::Diode)
    } else
    if w == "zener_diode"@ || w == "zener"@ || w == "zd"@ {
        Some(ComponentType::ZenerDiode)
    } else
    if w == "schottky_diode"@ || w == "schottky"@ || w == "sd"@ {
        Some(ComponentType::SchottkyDiode)
    } else
    if w == "led"@ {
        Some(ComponentType::Led)
    } else
    if w == "npn_transistor"@ || w == "npn"@ {
        Some(ComponentType::NpnTransistor)
    } else
    if w == "pnp_transistor"@ || w == "pnp"@ {
        Some(ComponentType::PnpTransistor)
    } else
    if w == "nmos_transistor"@ || w == "nmos"@ {
        Some(ComponentType::NmosTransistor)
    } else
    if w == "pmos_transistor"@ || w == "pmos"@ {
        Some(ComponentType::PmosTransistor)
    } else
    if w == "jfet"@ {
        Some(ComponentType::Jfet)
    } else
    if w == "op_amp"@ || w == "opamp"@ {
        Some(ComponentType::OpAmp)
    } else
    if w == "comparator"@ || w == "comp"@ {
        Some(ComponentType::Comparator)
    } else
    if w == "timer_555"@ || w == "555_timer"@ || w == "555"@ {
        Some(ComponentType::Timer555)
    } else
    if w == "and_gate"@ || w == "and"@ {
        Some(ComponentType::AndGate)
    } else
    if w == "or_gate"@ || w == "or"@ {
        Some(ComponentType::OrGate)
    } else
    if w == "not_gate"@ || w == "not"@ || w == "inverter"@ {
        Some(ComponentType::NotGate)
    } else
    if w == "nand_gate"@ || w == "nand"@ {
        Some(ComponentType::NandGate)
    } else
    if w == "nor_gate"@ || w == "nor"@ {
        Some(ComponentType::NorGate)
    } else
    if w == "xor_gate"@ || w == "xor"@ {
        Some(ComponentType::XorGate)
    } else
    if w == "flip_flop"@ || w == "ff"@ {
        Some(ComponentType::FlipFlop)
    } else
    if w == "counter"@ {
        Some(ComponentType::Counter)
    } else
    if w == "multiplexer"@ || w == "mux"@ {
        Some(ComponentType::Multiplexer)
    } else
    if w == "voltage_regulator"@ || w == "regulator"@ || w == "reg"@ {
        Some(ComponentType::VoltageRegulator)
    } else
    if w == "crystal"@ || w == "xtal"@ {
        Some(ComponentType::Crystal)
    } else
    if w == "relay"@ {
        Some(ComponentType::Relay)
    } else
    if w == "spst_switch"@ || w == "spst"@ {
        Some(ComponentType::SpstSwitch)
    } else
    if w == "spdt_switch"@ || w == "spdt"@ {
        Some(ComponentType::SpdtSwitch)
    } else
    if w == "dpdt_switch"@ || w == "dpdt"@ {
        Some(ComponentType::DpdtSwitch)
    } else
    if w == "fuse"@ {
        Some(ComponentType::Fuse)
    } else
    if w == "battery"@ || w == "bat"@ {
        Some(ComponentType::Battery)
    } else
    if w == "microcontroller"@ || w == "mcu"@ || w == "u"@ {
        Some(ComponentType::Microcontroller)
    } else
    if w == "connector"@ || w == "conn"@ {
        Some(ComponentType::Connector)
    } else
    if w == "test_point"@ || w == "tp"@ {
        Some(ComponentType::TestPoint)
    } else
    if w == "ammeter"@ || w == "am"@ {
        Some(ComponentType::Ammeter)
    } else
    if w == "voltmeter"@ || w == "vm"@ {
        Some(ComponentType::Voltmeter)
    } else
    if w == "oscilloscope_probe"@ || w == "oscope"@ || w == "probe"@ {
        Some(ComponentType::OscilloscopeProbe)
    } else
    if w == "antenna"@ {
        Some(ComponentType::Antenna)
    } else
    if w == "speaker"@ {
        Some(ComponentType::Speaker)
    } else
    if w == "microphone"@ || w == "mic"@ {
        Some(ComponentType::Microphone)
    } else
    if w == "motor"@ {
        Some(ComponentType::Motor)
    } else
    if w == "signal_ground"@ || w == "sgnd"@ || w == "ground"@ || w == "gnd"@ {
        Some(ComponentType::SignalGround)
    } else
    if w == "chassis_ground"@ || w == "cgnd"@ {
        Some(ComponentType::ChassisGround)
    } else
    if w == "earth_ground"@ || w == "egnd"@ {
        Some(ComponentType::EarthGround)
    } else {
        None
    }
}

fn any_word(w: &str, options: &[&str]) -> (r: bool)
    ensures
        r == exists|i: int| 0 <= i < options@.len() && w@ == (#[trigger] options@[i])@,
{
    let mut i: usize = 0;
    while i < options.len()
        invariant
            i <= options@.len(),
            forall|q: int| 0 <= q < i ==> w@ != (#[trigger] options@[q])@,
        decreases options.len() - i,
    {
        if same_text(w, options[i]) {
            return true;
        }
        i = i + 1;
    }
    false
}

/// The kind a lower-case type word names, if any.
pub fn kind_of_word(w: &str) -> (r: Option<ComponentType>)
    ensures
        r == kind_for_word(w@),
{
    proof {
        if kind_for_word(w@) != None::<ComponentType> {
        }
    }
    if any_word(w, &["resistor", "r"]) {
        return Some(ComponentType::Resistor);
    }
    if any_word(w, &["capacitor", "c"]) {
        return Some(ComponentType::Capacitor);
    }
    if any_word(w, &["inductor", "l"]) {
        return Some(ComponentType::Inductor);
    }
    if any_word(w, &["potentiometer", "pot"]) {
        return Some(ComponentType::Potentiometer);
    }
    if any_word(w, &["transformer", "t"]) {
        return Some(ComponentType::Transformer);
    }
    if any_word(w, &["dc_voltage", "dc_v", "vdc"]) {
        return Some(ComponentType::DcVoltage);
    }
    if any_word(w, &["dc_current", "dc_i", "idc"]) {
        return Some(ComponentType::DcCurrent);
    }
    if any_word(w, &["ac_voltage", "ac_v", "vac"]) {
        return Some(ComponentType::AcVoltage);
    }
    if any_word(w, &["ac_current", "ac_i", "iac"]) {
        return Some(ComponentType::AcCurrent);
    }
    if any_word(w, &["signal_generator", "sig_gen", "sg"]) {
        return Some(ComponentType::SignalGenerator);
    }
    if any_word(w, &["diode", "d"]) {
        return Some(ComponentType::Diode);
    }
    if any_word(w, &["zener_diode", "zener", "zd"]) {
        return Some(ComponentType::ZenerDiode);
    }
    if any_word(w, &["schottky_diode", "schottky", "sd"]) {
        return Some(ComponentType::SchottkyDiode);
    }
    if any_word(w, &["led"]) {
        return Some(ComponentType::Led);
    }
    if any_word(w, &["npn_transistor", "npn"]) {
        return Some(ComponentType::NpnTransistor);
    }
    if any_word(w, &["pnp_transistor", "pnp"]) {
        return Some(ComponentType::PnpTransistor);
    }
    if any_word(w, &["nmos_transistor", "nmos"]) {
        return Some(ComponentType::NmosTransistor);
    }
    if any_word(w, &["pmos_transistor", "pmos"]) {
        return Some(ComponentType::PmosTransistor);
    }
    if any_word(w, &["jfet"]) {
        return Some(ComponentType::Jfet);
    }
    if any_word(w, &["op_amp", "opamp"]) {
        return Some(ComponentType::OpAmp);
    }
    if any_word(w, &["comparator", "comp"]) {
        return Some(ComponentType::Comparator);
    }
    if any_word(w, &["timer_555", "555_timer", "555"]) {
        return Some(ComponentType::Timer555);
    }
    if any_word(w, &["and_gate", "and"]) {
        return Some(ComponentType::AndGate);
    }
    if any_word(w, &["or_gate", "or"]) {
        return Some(ComponentType::OrGate);
    }
    if any_word(w, &["not_gate", "not", "inverter"]) {
        return Some(ComponentType::NotGate);
    }
    if any_word(w, &["nand_gate", "nand"]) {
        return Some(ComponentType::NandGate);
    }
    if any_word(w, &["nor_gate", "nor"]) {
        return Some(ComponentType::NorGate);
    }
    if any_word(w, &["xor_gate", "xor"]) {
        return Some(ComponentType::XorGate);
    }
    if any_word(w, &["flip_flop", "ff"]) {
        return Some(ComponentType::FlipFlop);
    }
    if any_word(w, &["counter"]) {
        return Some(ComponentType::Counter);
    }
    if any_word(w, &["multiplexer", "mux"]) {
        return Some(ComponentType::Multiplexer);
    }
    if any_word(w, &["voltage_regulator", "regulator", "reg"]) {
        return Some(ComponentType::VoltageRegulator);
    }
    if any_word(w, &["crystal", "xtal"]) {
        return Some(ComponentType::Crystal);
    }
    if any_word(w, &["relay"]) {
        return Some(ComponentType::Relay);
    }
    if any_word(w, &["spst_switch", "spst"]) {
        return Some(ComponentType::SpstSwitch);
    }
    if any_word(w, &["spdt_switch", "spdt"]) {
        return Some(ComponentType::SpdtSwitch);
    }
    if any_word(w, &["dpdt_switch", "dpdt"]) {
        return Some(ComponentType::DpdtSwitch);
    }
    if any_word(w, &["fuse"]) {
        return Some(ComponentType::Fuse);
    }
    if any_word(w, &["battery", "bat"]) {
        return Some(ComponentType::Battery);
    }
    if any_word(w, &["microcontroller", "mcu", "u"]) {
        return Some(ComponentType::Microcontroller);
    }
    if any_word(w, &["connector", "conn"]) {
        return Some(ComponentType::Connector);
    }
    if any_word(w, &["test_point", "tp"]) {
        return Some(ComponentType::TestPoint);
    }
    if any_word(w, &["ammeter", "am"]) {
        return Some(ComponentType::Ammeter);
    }
    if any_word(w, &["voltmeter", "vm"]) {
        return Some(ComponentType::Voltmeter);
    }
    if any_word(w, &["oscilloscope_probe", "oscope", "probe"]) {
        return Some(ComponentType::OscilloscopeProbe);
    }
    if any_word(w, &["antenna"]) {
        return Some(ComponentType::Antenna);
    }
    if any_word(w, &["speaker"]) {
        return Some(ComponentType::Speaker);
    }
    if any_word(w, &["microphone", "mic"]) {
        return Some(ComponentType::Microphone);
    }
    if any_word(w, &["motor"]) {
        return Some(ComponentType::Motor);
    }
    if any_word(w, &["signal_ground", "sgnd", "ground", "gnd"]) {
        return Some(ComponentType::SignalGround);
    }
    if any_word(w, &["chassis_ground", "cgnd"]) {
        return Some(ComponentType::ChassisGround);
    }
    if any_word(w, &["earth_ground", "egnd"]) {
        return Some(ComponentType::EarthGround);
    }
    None
}

} // verus!
