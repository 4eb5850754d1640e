use audio::bus::{Attenuate, AudioBus, AudioBusGraph, Effect};
use audio::source::StereoSample;
use audio::SoundError;

#[test]
fn graph_starts_with_the_primary_bus() {
    let graph = AudioBusGraph::new();
    let master = graph.primary_bus_handle();
    assert_eq!(master.index, 0);
    assert!(graph.try_get_bus_input_buffer(&String::from("Master")).is_some());
    assert!(graph.try_get_bus_input_buffer(&String::from("Nowhere")).is_none());
}

#[test]
fn add_bus_rejects_an_invalid_parent() {
    let mut graph = AudioBusGraph::new();
    let bogus = audio::bus::BusHandle { index: 5 };
    let r = graph.add_bus(AudioBus::new(String::from("Child")), bogus);
    assert_eq!(r.err(), Some(SoundError::InvalidHandle));
    assert!(graph.try_get_bus_input_buffer(&String::from("Child")).is_none());
}

#[test]
fn add_bus_attaches_under_the_parent() {
    let mut graph = AudioBusGraph::new();
    let master = graph.primary_bus_handle();
    let child = graph.add_bus(AudioBus::new(String::from("Child")), master).unwrap();
    assert_eq!(child.index, 1);
    let grandchild = graph.add_bus(AudioBus::new(String::from("Grandchild")), child).unwrap();
    assert_eq!(grandchild.index, 2);
    assert!(graph.try_get_bus_input_buffer(&String::from("Grandchild")).is_some());
}

#[test]
fn begin_render_sizes_every_input_to_the_block() {
    let mut graph = AudioBusGraph::new();
    let master = graph.primary_bus_handle();
    graph.add_bus(AudioBus::new(String::from("Child")), master).unwrap();
    graph.begin_render(3);
    let buf = graph.try_get_bus_input_buffer(&String::from("Child")).unwrap();
    assert_eq!(buf.len(), 3);
    assert!(buf.iter().all(|f| *f == StereoSample { left: 0, right: 0 }));
}

#[test]
fn mix_into_missing_bus_reports_and_changes_nothing() {
    let mut graph = AudioBusGraph::new();
    graph.begin_render(2);
    let frames = vec![StereoSample { left: 5, right: 5 }; 2];
    assert!(!graph.mix_into_bus(&String::from("Nowhere"), &frames));
    let master = graph.try_get_bus_input_buffer(&String::from("Master")).unwrap();
    assert!(master.iter().all(|f| *f == StereoSample { left: 0, right: 0 }));
}

#[test]
fn end_render_mixes_children_into_the_primary_output() {
    let mut graph = AudioBusGraph::new();
    let master = graph.primary_bus_handle();
    let mut child = AudioBus::new(String::from("Child"));
    child.add_effect(Effect::Attenuate(Attenuate::new(32768)));
    graph.add_bus(child, master).unwrap();
    graph.begin_render(2);
    let frames = vec![
        StereoSample { left: 100, right: 200 },
        StereoSample { left: 300, right: 400 },
    ];
    assert!(graph.mix_into_bus(&String::from("Child"), &frames));
    let mut out: Vec<StereoSample> = Vec::new();
    graph.end_render(&mut out);
    assert_eq!(
        out,
        vec![StereoSample { left: 50, right: 100 }, StereoSample { left: 150, right: 200 }]
    );
}

#[test]
fn effect_attenuate_halves_a_frame() {
    let e = Effect::Attenuate(Attenuate::new(32768));
    let r = e.apply(StereoSample { left: 1000, right: -1000 });
    assert_eq!(r, StereoSample { left: 500, right: -500 });
}

#[test]
fn attenuate_clamps_negative_gain_to_silence() {
    let a = Attenuate::new(-5);
    assert_eq!(a.gain, 0);
    let e = Effect::Attenuate(a);
    assert_eq!(
        e.apply(StereoSample { left: 123, right: 456 }),
        StereoSample { left: 0, right: 0 }
    );
}
