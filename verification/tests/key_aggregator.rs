use reai_board_sdk::kernel::event::{BoardEvent, ComboKeyEvent, KeySource};
use reai_board_sdk::kernel::key_aggregator::{KeyStateAggregator, PressedKeyMeta};
use reai_board_sdk::kernel::protocol_hid::get_key_name;

fn meta(idx: usize, val: u16, source: KeySource) -> PressedKeyMeta {
    PressedKeyMeta {
        key_index: idx,
        key_name: get_key_name(idx).to_string(),
        key_value: val,
        source,
    }
}

#[test]
fn press_and_release_single_key() {
    let mut agg = KeyStateAggregator::new();

    let evts = agg.report_change(
        KeySource::Config,
        vec![meta(6, 0x01, KeySource::Config)],
        Some(0x01),
    );
    assert_eq!(evts.len(), 1);
    match &evts[0] {
        BoardEvent::KeyPress(k) => {
            assert_eq!(k.key_index, 6);
            assert!(k.pressed);
            assert_eq!(k.source, KeySource::Config);
            assert_eq!(k.key_value, 0x01);
        }
        _ => panic!("expected KeyPress"),
    }

    let evts = agg.report_change(KeySource::Config, vec![], None);
    assert_eq!(evts.len(), 1);
    if let BoardEvent::KeyPress(k) = &evts[0] {
        assert_eq!(k.key_index, 6);
        assert!(!k.pressed);
        assert_eq!(k.key_value, 0x0000);
    } else {
        panic!("expected KeyPress release");
    }
}

#[test]
fn combo_when_two_keys_pressed() {
    let mut agg = KeyStateAggregator::new();

    let evts = agg.report_change(
        KeySource::Config,
        vec![
            meta(6, 0x01, KeySource::Config),
            meta(7, 0x02, KeySource::Config),
        ],
        Some(0x03),
    );

    let presses: usize = evts
        .iter()
        .filter(|e| matches!(e, BoardEvent::KeyPress(k) if k.pressed))
        .count();
    let combos: Vec<&ComboKeyEvent> = evts
        .iter()
        .filter_map(|e| match e {
            BoardEvent::ComboKey(c) => Some(c),
            _ => None,
        })
        .collect();

    assert_eq!(presses, 2, "应有 2 个按下事件");
    assert_eq!(combos.len(), 1, "应有 1 个组合键事件");
    assert_eq!(combos[0].keys, vec![6, 7]);
    assert_eq!(combos[0].config_mask, Some(0x03));
}

#[test]
fn cross_source_merge() {
    let mut agg = KeyStateAggregator::new();

    let mut evts = agg.report_change(
        KeySource::Config,
        vec![meta(6, 0x01, KeySource::Config)],
        Some(0x01),
    );
    evts.extend(agg.report_change(
        KeySource::Consumer,
        vec![meta(3, 0x0F01, KeySource::Consumer)],
        None,
    ));

    let pressed_indices: Vec<usize> = evts
        .iter()
        .filter_map(|e| match e {
            BoardEvent::KeyPress(k) if k.pressed => Some(k.key_index),
            _ => None,
        })
        .collect();
    assert_eq!(pressed_indices, vec![6, 3]);
}

#[test]
fn a_combo_lists_each_key_once_and_in_order() {
    let mut agg = KeyStateAggregator::new();
    let keys = [8, 3, 8, 0, 11, 3, 1, 2, 4, 5, 6, 7, 9, 10];
    let evts = agg.report_change(
        KeySource::Gatt,
        keys.iter().map(|k| meta(*k, 0x0F00, KeySource::Gatt)).collect(),
        None,
    );
    let pressed: Vec<usize> = evts
        .iter()
        .filter_map(|e| match e {
            BoardEvent::KeyPress(k) if k.pressed => Some(k.key_index),
            _ => None,
        })
        .collect();
    assert_eq!(pressed, (0..12).collect::<Vec<usize>>());
    match evts.last() {
        Some(BoardEvent::ComboKey(c)) => {
            assert_eq!(c.keys, (0..12).collect::<Vec<usize>>());
            assert_eq!(c.key_names.len(), 12);
            assert_eq!(c.key_names[6], get_key_name(6));
        }
        other => panic!("unexpected event: {other:?}"),
    }
}

#[test]
fn a_key_held_by_two_channels_goes_up_with_the_last() {
    let mut agg = KeyStateAggregator::new();
    agg.report_change(KeySource::Config, vec![meta(6, 1, KeySource::Config)], Some(1));
    let again = agg.report_change(KeySource::Gatt, vec![meta(6, 1, KeySource::Gatt)], None);
    assert!(again.is_empty());
    assert!(agg.report_change(KeySource::Config, vec![], None).is_empty());
    let up = agg.report_change(KeySource::Gatt, vec![], None);
    assert!(matches!(&up[..], [BoardEvent::KeyPress(k)] if k.key_index == 6 && !k.pressed));
}
