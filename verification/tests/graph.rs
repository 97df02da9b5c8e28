//! Connection-graph behaviour: rejections, replacement, ordering, cycles,
//! conversions, defaults.

use modrack::audio::{Audio, AudioInput};
use modrack::frame::{Frame, UNIT};
use modrack::io::{ConnectResult, ConnectResultErr, ConnectResultWarn, Io, PortHandle};
use modrack::module::{ConversionEntry, PortId};
use modrack::oscillator::{FrameOutput, FrequencyInput, Oscillator};
use modrack::rack::Rack;
use modrack::types::{Conversion, PortValue, ValueType};
use modrack::value::{Value, ValueOutput};

fn rack_with_panel() -> Rack {
    let mut rack = Rack::new();
    rack.add_panel();
    rack
}

#[test]
fn connect_same_instance_rejected() {
    let mut rack = rack_with_panel();
    let osc = rack.add_module(&Oscillator::describe().into_dyn(), 0);
    let from = PortHandle::new(FrameOutput::id(), osc);
    let to = PortHandle::new(FrequencyInput::id(), osc);

    let can = rack.can_connect(from, to);
    assert!(matches!(
        can,
        ConnectResult::Reject(ConnectResultErr::SameInstance)
    ));
    let edges_before = rack.io.connections.len();
    assert!(rack.connect(from, to).is_err());
    assert_eq!(rack.io.connections.len(), edges_before);
}

#[test]
fn connect_replaces_prior_source() {
    let mut rack = rack_with_panel();
    let v1 = rack.add_module(&Value::describe().into_dyn(), 0);
    let v2 = rack.add_module(&Value::describe().into_dyn(), 0);
    let osc = rack.add_module(&Oscillator::describe().into_dyn(), 0);

    let out1 = PortHandle::new(ValueOutput::id(), v1);
    let out2 = PortHandle::new(ValueOutput::id(), v2);
    let freq = PortHandle::new(FrequencyInput::id(), osc);

    assert!(matches!(rack.can_connect(out1, freq), ConnectResult::Accept));
    assert!(rack.connect(out1, freq).is_ok());

    // the second source warns that it will replace the first
    match rack.can_connect(out2, freq) {
        ConnectResult::Warn(ConnectResultWarn::Replace(old_source, target)) => {
            assert_eq!(old_source, out1);
            assert_eq!(target, freq);
        }
        other => panic!("expected a replace warning, got {:?}", other),
    }
    assert!(rack.connect(out2, freq).is_ok());

    // the old edge is gone, the new one is there, and `freq` has exactly
    // one incoming edge
    let incoming: Vec<_> = rack
        .io
        .connections
        .iter()
        .filter(|e| e.1 == freq)
        .collect();
    assert_eq!(incoming.len(), 1);
    assert_eq!(incoming[0].0, out2);
    assert_eq!(rack.io.input_connection(freq), Some(out2));
}

#[test]
fn processing_order_respects_every_edge() {
    let mut rack = rack_with_panel();
    // value -> oscillator -> audio, plus an independent second chain
    let val = rack.add_module(&Value::describe().into_dyn(), 0);
    let osc = rack.add_module(&Oscillator::describe().into_dyn(), 0);
    let sink = rack.add_module(&Audio::describe().into_dyn(), 0);

    let val_out = PortHandle::new(ValueOutput::id(), val);
    let osc_freq = PortHandle::new(FrequencyInput::id(), osc);
    let osc_out = PortHandle::new(FrameOutput::id(), osc);
    let audio_in = PortHandle::new(AudioInput::id(), sink);

    assert!(rack.connect(val_out, osc_freq).is_ok());
    assert!(rack.connect(osc_out, audio_in).is_ok());

    let order = rack
        .io
        .compute_instances_processing_order()
        .expect("acyclic graph must sort");
    let flat: Vec<u64> = order.iter().flatten().map(|h| h.id).collect();
    let pos = |id: u64| flat.iter().position(|&x| x == id).expect("instance in order");
    assert!(pos(val.id) < pos(osc.id));
    assert!(pos(osc.id) < pos(sink.id));
}

#[test]
fn cycle_is_reported_not_truncated() {
    // two instances feeding each other: the sort must report the cycle
    let a = modrack::instance::InstanceHandle::from_raw(1);
    let b = modrack::instance::InstanceHandle::from_raw(2);
    let pa_out = PortHandle::new(PortId::new(100, ValueType::Sample), a);
    let pa_in = PortHandle::new(PortId::new(101, ValueType::Sample), a);
    let pb_out = PortHandle::new(PortId::new(102, ValueType::Sample), b);
    let pb_in = PortHandle::new(PortId::new(103, ValueType::Sample), b);

    let mut io = Io::new();
    io.connections.push((pa_out, pb_in));
    io.connections.push((pb_out, pa_in));
    let result = io.compute_instances_processing_order();
    assert_eq!(result, Err("cyclic dependency"));
}

#[test]
fn connect_refuses_cycle() {
    let mut rack = rack_with_panel();
    let a = rack.add_module(&Oscillator::describe().into_dyn(), 0);
    let b = rack.add_module(&Oscillator::describe().into_dyn(), 0);

    let a_out = PortHandle::new(FrameOutput::id(), a);
    let a_in = PortHandle::new(FrequencyInput::id(), a);
    let b_out = PortHandle::new(FrameOutput::id(), b);
    let b_in = PortHandle::new(FrequencyInput::id(), b);

    assert!(rack.connect(a_out, b_in).is_ok());
    // the reverse edge would close a cycle: rejected, graph unchanged
    assert!(rack.connect(b_out, a_in).is_err());
    assert_eq!(rack.io.connections.len(), 1);
    assert!(rack.io.compute_instances_processing_order().is_ok());
}

#[test]
fn disconnect_resets_input_to_default() {
    let mut rack = rack_with_panel();
    let val = rack.add_module(&Value::describe().into_dyn(), 0);
    let osc = rack.add_module(&Oscillator::describe().into_dyn(), 0);

    let val_out = PortHandle::new(ValueOutput::id(), val);
    let osc_freq = PortHandle::new(FrequencyInput::id(), osc);
    assert!(rack.connect(val_out, osc_freq).is_ok());

    // the source writes 123 into the connected input
    rack.io.set_output_dyn(val_out, PortValue::Sample(123));
    let role = FrequencyInput::describe().into_dyn();
    assert_eq!(rack.io.get_input(osc, &role), PortValue::Sample(123));

    rack.disconnect(val_out, osc_freq);
    // the staged value is gone; the read falls back to the declared default
    assert_eq!(rack.io.get_input_dyn(osc_freq), None);
    assert_eq!(rack.io.get_input(osc, &role), PortValue::Sample(70 * UNIT));
}

#[test]
fn conversion_upgrades_incompatible_ports() {
    let mut rack = rack_with_panel();
    let osc = rack.add_module(&Oscillator::describe().into_dyn(), 0);
    let sink = rack.add_module(&Audio::describe().into_dyn(), 0);

    let osc_out = PortHandle::new(FrameOutput::id(), osc);
    let audio_in = PortHandle::new(AudioInput::id(), sink);

    // scalar output into frame input: types differ, but the audio input
    // registers a conversion, so the connection is accepted
    assert!(matches!(rack.can_connect(osc_out, audio_in), ConnectResult::Accept));
    assert!(rack.connect(osc_out, audio_in).is_ok());

    // the staged scalar is read through the conversion as a mono frame
    rack.io.set_output_dyn(osc_out, PortValue::Sample(250_000));
    let role = AudioInput::describe().into_dyn();
    assert_eq!(
        rack.io.get_input(sink, &role),
        PortValue::Frame(Frame::Mono(250_000))
    );
}

#[test]
fn without_conversion_incompatible_is_rejected() {
    let mut rack = rack_with_panel();
    let osc = rack.add_module(&Oscillator::describe().into_dyn(), 0);
    let other = rack.add_module(&Oscillator::describe().into_dyn(), 0);

    // frame-typed port invented on `other`: no conversion from Sample exists
    let osc_out = PortHandle::new(FrameOutput::id(), osc);
    let frame_in = PortHandle::new(PortId::new(900, ValueType::Frame), other);
    assert!(matches!(
        rack.can_connect(osc_out, frame_in),
        ConnectResult::Reject(ConnectResultErr::InCompatible)
    ));
    assert!(rack.connect(osc_out, frame_in).is_err());
}

#[test]
fn port_specific_conversion_takes_precedence() {
    let mut io = Io::new();
    let port = PortId::new(500, ValueType::Sample);
    // a general adapter and a port-specific one under the same type pair
    io.add_conversion(ConversionEntry {
        from: ValueType::Frame,
        to: ValueType::Sample,
        target: None,
        conv: Conversion::FrameToSample,
    });
    io.add_conversion(ConversionEntry {
        from: ValueType::Bool,
        to: ValueType::Sample,
        target: None,
        conv: Conversion::BoolToSample,
    });
    // the port-specific entry wins over the general one
    assert_eq!(
        io.find_conversion(ValueType::Frame, ValueType::Sample, port),
        Some(Conversion::FrameToSample)
    );
    assert_eq!(
        io.find_conversion(ValueType::Bool, ValueType::Sample, port),
        Some(Conversion::BoolToSample)
    );
    assert_eq!(
        io.find_conversion(ValueType::Sample, ValueType::Frame, port),
        None
    );
}

#[test]
fn removing_sole_source_frees_input() {
    let mut rack = rack_with_panel();
    let val = rack.add_module(&Value::describe().into_dyn(), 0);
    let osc = rack.add_module(&Oscillator::describe().into_dyn(), 0);

    let val_out = PortHandle::new(ValueOutput::id(), val);
    let osc_freq = PortHandle::new(FrequencyInput::id(), osc);
    assert!(rack.connect(val_out, osc_freq).is_ok());
    rack.io.set_output_dyn(val_out, PortValue::Sample(5));

    rack.remove_instance(val);

    // the input is disconnected and reads its declared default again
    assert!(!rack.io.has_connection(osc_freq));
    assert_eq!(rack.io.input_connection(osc_freq), None);
    let role = FrequencyInput::describe().into_dyn();
    assert_eq!(rack.io.get_input(osc, &role), PortValue::Sample(70 * UNIT));
    assert!(rack.get_instance(val).is_none());
    assert!(rack.get_instance(osc).is_some());
}

#[test]
fn clear_port_drops_both_sides() {
    let mut rack = rack_with_panel();
    let val = rack.add_module(&Value::describe().into_dyn(), 0);
    let osc = rack.add_module(&Oscillator::describe().into_dyn(), 0);

    let val_out = PortHandle::new(ValueOutput::id(), val);
    let osc_freq = PortHandle::new(FrequencyInput::id(), osc);
    assert!(rack.connect(val_out, osc_freq).is_ok());
    assert!(rack.io.has_connection(val_out));

    rack.io.clear_port(val_out);
    assert!(!rack.io.has_connection(val_out));
    assert!(!rack.io.has_connection(osc_freq));
}

#[test]
fn set_output_propagates_to_all_connected_inputs() {
    let mut rack = rack_with_panel();
    let val = rack.add_module(&Value::describe().into_dyn(), 0);
    let osc1 = rack.add_module(&Oscillator::describe().into_dyn(), 0);
    let osc2 = rack.add_module(&Oscillator::describe().into_dyn(), 0);

    let val_out = PortHandle::new(ValueOutput::id(), val);
    let f1 = PortHandle::new(FrequencyInput::id(), osc1);
    let f2 = PortHandle::new(FrequencyInput::id(), osc2);
    assert!(rack.connect(val_out, f1).is_ok());
    assert!(rack.connect(val_out, f2).is_ok());

    // fan-out: one output write reaches both inputs synchronously
    rack.io.set_output_dyn(val_out, PortValue::Sample(42));
    assert_eq!(rack.io.get_input_dyn(f1), Some(PortValue::Sample(42)));
    assert_eq!(rack.io.get_input_dyn(f2), Some(PortValue::Sample(42)));
}

#[test]
fn typed_handles_carry_no_extra_state() {
    let mut rack = rack_with_panel();
    let osc = rack.add_module(&Oscillator::describe().into_dyn(), 0);
    let typed: modrack::instance::TypedInstanceHandle<Oscillator> = osc.as_typed();
    assert_eq!(typed.as_untyped(), osc);
    assert_eq!(modrack::instance::InstanceHandle::from_typed(&typed), osc);
}

#[test]
fn value_module_emits_edited_scalar() {
    let mut rack = rack_with_panel();
    let val = rack.add_module(&Value::describe().into_dyn(), 0);
    let osc = rack.add_module(&Oscillator::describe().into_dyn(), 0);
    let val_out = PortHandle::new(ValueOutput::id(), val);
    let osc_freq = PortHandle::new(FrequencyInput::id(), osc);
    assert!(rack.connect(val_out, osc_freq).is_ok());

    // edit the held value, then evaluate one sample: the oscillator's input
    // now stages the edited scalar
    match rack.instances.iter_mut().find(|i| i.handle == val) {
        Some(instance) => match &mut instance.module {
            modrack::instance::ModuleState::Value(v) => v.set_value(440 * UNIT),
            _ => panic!("a value module was added"),
        },
        None => panic!("the instance is live"),
    }
    rack.process_amount(48_000, 1);
    assert_eq!(
        rack.io.get_input_dyn(osc_freq),
        Some(PortValue::Sample(440 * UNIT))
    );
}
