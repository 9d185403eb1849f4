use fb4rasp_engine::action::{Action, ChangeLayoutAction, ChangeRenderAction, Effect, ShutdownAction};
use fb4rasp_engine::condition::{Condition, MultiItemCondition, OneItemCondition};
use fb4rasp_engine::engine::{AnnotatedSystemInfo, Command, Engine, Response, DEFAULT_HOST};
use fb4rasp_engine::params::{Layout, NetworkInfo};
use fb4rasp_engine::rule::{AndRule, OrRule, Rule, SimpleRule};
use fb4rasp_engine::touch::TouchStatus;

fn pins(list: &[u8]) -> TouchStatus {
    let mut bits = 0u16;
    for p in list {
        bits |= 1 << p;
    }
    TouchStatus::new(bits)
}

fn layout_rule_on_pin_two() -> Rule {
    Rule::Simple(SimpleRule::new(
        Condition::OneItem(OneItemCondition::new(2)),
        Action::ChangeLayout(ChangeLayoutAction {}),
    ))
}

#[test]
fn touch_on_pin_two_toggles_layout() {
    let mut engine: Engine<u32> = Engine::new(0);
    engine.add_rule(layout_rule_on_pin_two());
    assert_eq!(Layout::Vertical, engine.get_main_layout());
    let effects = engine.touch(pins(&[2]));
    assert!(effects.is_empty());
    assert_eq!(Layout::Horizontal, engine.get_main_layout());
    engine.touch(pins(&[2]));
    assert_eq!(Layout::Vertical, engine.get_main_layout());
}

#[test]
fn touch_scenario_through_messages() {
    let mut engine: Engine<u32> = Engine::new(0);
    engine.handle_message(Command::AddRule(layout_rule_on_pin_two()));
    engine.handle_message(Command::Touch(pins(&[2])));
    match engine.handle_message(Command::GetLayout) {
        Response::Layout(l) => assert_eq!(Layout::Horizontal, l),
        _ => panic!("unexpected response"),
    }
    engine.handle_message(Command::Touch(pins(&[2])));
    match engine.handle_message(Command::GetLayout) {
        Response::Layout(l) => assert_eq!(Layout::Vertical, l),
        _ => panic!("unexpected response"),
    }
}

#[test]
fn net_tx_rx_rounds_rates() {
    let mut engine: Engine<u32> = Engine::new(0);
    assert!(engine.net(NetworkInfo::new(100, 1000)));
    assert!(engine.net(NetworkInfo::new(150, 1000)));
    assert!(engine.net(NetworkInfo::new(210, 1001)));
    let (tx, rx) = engine.get_net_tx_rx(3000);
    assert_eq!(vec![17, 20], tx);
    assert_eq!(vec![0, 0], rx);
    let (tx, _) = engine.get_net_tx_rx(1500);
    assert_eq!(vec![33, 40], tx);
}

#[test]
fn net_tx_rx_of_empty_and_single_history() {
    let mut engine: Engine<u32> = Engine::new(0);
    assert_eq!((vec![], vec![]), engine.get_net_tx_rx(3000));
    engine.net(NetworkInfo::new(5, 5));
    assert_eq!((vec![], vec![]), engine.get_net_tx_rx(3000));
}

#[test]
fn net_tx_rx_zero_period_saturates() {
    let mut engine: Engine<u32> = Engine::new(0);
    engine.net(NetworkInfo::new(10, 10));
    engine.net(NetworkInfo::new(20, 10));
    let (tx, rx) = engine.get_net_tx_rx(0);
    assert_eq!(vec![i64::MAX], tx);
    assert_eq!(vec![0], rx);
}

#[test]
fn net_message_reports_throughput() {
    let mut engine: Engine<u32> = Engine::new(0);
    engine.handle_message(Command::Net(NetworkInfo::new(300, 0)));
    match engine.handle_message(Command::Net(NetworkInfo::new(600, 3))) {
        Response::NetworkData(tx, rx) => {
            assert_eq!(vec![100], tx);
            assert_eq!(vec![1], rx);
        }
        _ => panic!("unexpected response"),
    }
}

#[test]
fn counter_wrap_is_corrected() {
    let mut engine: Engine<u32> = Engine::new(0);
    engine.net(NetworkInfo::new(100, 100));
    engine.net(NetworkInfo::new(50, 200));
    let (prev, last) = engine.last_net_info();
    assert_eq!(NetworkInfo::new(100, 100), prev);
    assert_eq!(50 + (1i64 << 32), last.tx_bytes);
    assert_eq!(200, last.rx_bytes);
    assert!(last.tx_bytes >= prev.tx_bytes);
}

#[test]
fn corrected_counters_never_decrease() {
    let raws: [i64; 8] = [5, 4_000_000_000, 3, 9, 2, 4_294_967_295, 0, 1];
    let mut engine: Engine<u32> = Engine::new(0);
    let mut before = 0i64;
    for r in raws {
        assert!(engine.net(NetworkInfo::new(r, r)));
        let (_, last) = engine.last_net_info();
        assert!(last.tx_bytes >= before);
        assert_eq!(0, (last.tx_bytes - r) % (1i64 << 32));
        before = last.tx_bytes;
    }
}

#[test]
fn sample_that_cannot_be_lifted_is_refused() {
    let mut engine: Engine<u32> = Engine::new(0);
    assert!(engine.net(NetworkInfo::new(i64::MAX, 0)));
    assert!(!engine.net(NetworkInfo::new(0, 0)));
    let (_, last) = engine.last_net_info();
    assert_eq!(NetworkInfo::new(i64::MAX, 0), last);
    match engine.handle_message(Command::Net(NetworkInfo::new(0, 0))) {
        Response::Done => {}
        _ => panic!("unexpected response"),
    }
}

#[test]
fn and_rule_needs_every_condition() {
    let mut rule = AndRule::new();
    assert!(rule.add_condition(Condition::MultiItem(MultiItemCondition::new(&[2, 3]))));
    assert!(rule.add_condition(Condition::OneItem(OneItemCondition::new(2))));
    assert!(rule.add_action(Action::Shutdown(ShutdownAction {})));
    let mut engine: Engine<u32> = Engine::new(0);
    engine.add_rule(Rule::And(rule));
    let effects = engine.touch(pins(&[2, 3]));
    assert!(effects.is_empty());
    let effects = engine.touch(pins(&[2]));
    assert!(effects.is_empty());
    assert_eq!(vec![pins(&[2, 3]), pins(&[2])], engine.touch_info());
}

#[test]
fn and_rule_fires_when_all_hold() {
    let mut rule = AndRule::new();
    rule.add_condition(Condition::MultiItem(MultiItemCondition::new(&[2, 3, 4, 6, 8])));
    rule.add_action(Action::Shutdown(ShutdownAction {}));
    let mut engine: Engine<u32> = Engine::new(0);
    engine.add_rule(Rule::And(rule));
    engine.touch(pins(&[1]));
    let effects = engine.touch(pins(&[2, 3, 4, 6, 8]));
    assert_eq!(vec![Effect::Shutdown], effects);
    assert!(engine.touch_info().is_empty());
}

#[test]
fn or_rule_needs_one_condition() {
    let mut rule = OrRule::new();
    rule.add_condition(Condition::OneItem(OneItemCondition::new(5)));
    rule.add_condition(Condition::OneItem(OneItemCondition::new(7)));
    rule.add_action(Action::ChangeRender(ChangeRenderAction {}));
    rule.add_action(Action::ChangeLayout(ChangeLayoutAction {}));
    let mut engine: Engine<u32> = Engine::new(0);
    engine.add_rule(Rule::Or(rule));
    assert!(engine.touch(pins(&[6])).is_empty());
    assert_eq!(vec![Effect::SwitchRender], engine.touch(pins(&[7])));
    assert_eq!(Layout::Horizontal, engine.get_main_layout());
    assert!(engine.touch_info().is_empty());
}

#[test]
fn empty_rules_fire_as_documented() {
    let mut engine: Engine<u32> = Engine::new(0);
    engine.add_rule(Rule::Or(OrRule::new()));
    engine.touch(pins(&[1]));
    assert_eq!(1, engine.touch_info().len());
    engine.add_rule(Rule::And(AndRule::new()));
    engine.touch(pins(&[1]));
    assert!(engine.touch_info().is_empty());
}

#[test]
fn every_firing_rule_runs() {
    let mut engine: Engine<u32> = Engine::new(0);
    engine.add_rule(Rule::Simple(SimpleRule::new(
        Condition::MultiItem(MultiItemCondition::new(&[4])),
        Action::ChangeRender(ChangeRenderAction {}),
    )));
    engine.add_rule(Rule::Simple(SimpleRule::new(
        Condition::OneItem(OneItemCondition::new(4)),
        Action::Shutdown(ShutdownAction {}),
    )));
    let effects = engine.touch(pins(&[4]));
    assert_eq!(vec![Effect::SwitchRender, Effect::Shutdown], effects);
}

#[test]
fn pending_touches_accumulate_until_a_rule_fires() {
    let mut engine: Engine<u32> = Engine::new(0);
    engine.add_rule(layout_rule_on_pin_two());
    engine.touch(pins(&[1]));
    engine.touch(pins(&[3, 4]));
    engine.touch(pins(&[2]));
    assert!(engine.touch_info().is_empty());
    engine.touch(pins(&[1]));
    engine.touch(pins(&[3]));
    assert_eq!(vec![pins(&[1]), pins(&[3])], engine.touch_info());
}

#[test]
fn touch_info_drains() {
    let mut engine: Engine<u32> = Engine::new(0);
    engine.handle_message(Command::Touch(pins(&[1])));
    engine.handle_message(Command::Touch(pins(&[9])));
    match engine.handle_message(Command::GetTouchInfo) {
        Response::TouchInfo(v) => assert_eq!(vec![pins(&[1]), pins(&[9])], v),
        _ => panic!("unexpected response"),
    }
    match engine.handle_message(Command::GetTouchInfo) {
        Response::TouchInfo(v) => assert!(v.is_empty()),
        _ => panic!("unexpected response"),
    }
}

#[test]
fn simple_rule_setters_replace_parts() {
    let mut rule = SimpleRule::new(
        Condition::OneItem(OneItemCondition::new(0)),
        Action::Shutdown(ShutdownAction {}),
    );
    assert!(rule.set_condition(Condition::OneItem(OneItemCondition::new(3))));
    assert!(rule.set_action(Action::ChangeRender(ChangeRenderAction {})));
    let mut engine: Engine<u32> = Engine::new(0);
    engine.add_rule(Rule::Simple(rule));
    assert!(engine.touch(pins(&[0])).is_empty());
    assert_eq!(vec![Effect::SwitchRender], engine.touch(pins(&[3])));
}

#[test]
fn snapshots_are_kept_per_source() {
    let mut engine: Engine<u32> = Engine::new(0);
    assert_eq!(1, engine.system_infos().len());
    assert_eq!(DEFAULT_HOST, engine.system_infos()[0].source);
    engine.sys_info(AnnotatedSystemInfo { source: "pi".to_string(), si: Some(5) });
    engine.sys_info(AnnotatedSystemInfo { source: DEFAULT_HOST.to_string(), si: Some(8) });
    engine.sys_info(AnnotatedSystemInfo { source: "pi".to_string(), si: Some(6) });
    let infos = engine.system_infos();
    assert_eq!(2, infos.len());
    assert_eq!("pi", infos[1].source);
    assert_eq!(2, infos[1].history.size());
    assert_eq!(6, *infos[1].history.last());
    assert_eq!(5, *infos[1].history.item(-2));
    assert_eq!(1, infos[0].history.size());
    assert_eq!(8, *infos[0].history.last());
}

#[test]
fn failed_poll_forgets_oldest_but_keeps_data() {
    let mut engine: Engine<u32> = Engine::new(0);
    engine.sys_info(AnnotatedSystemInfo { source: "pi".to_string(), si: Some(5) });
    engine.sys_info(AnnotatedSystemInfo { source: "pi".to_string(), si: Some(6) });
    match engine.handle_message(Command::SysInfo(AnnotatedSystemInfo {
        source: "pi".to_string(),
        si: None,
    })) {
        Response::Done => {}
        _ => panic!("unexpected response"),
    }
    let h = &engine.system_infos()[1].history;
    assert_eq!(1, h.size());
    assert_eq!(6, *h.last());
    engine.sys_info(AnnotatedSystemInfo { source: "new".to_string(), si: None });
    assert_eq!(3, engine.system_infos().len());
    assert_eq!(0, engine.system_infos()[2].history.size());
    assert_eq!(0, *engine.system_infos()[2].history.last());
}

#[test]
fn last_net_info_pairs_two_newest() {
    let mut engine: Engine<u32> = Engine::new(0);
    engine.net(NetworkInfo::new(1, 2));
    engine.net(NetworkInfo::new(3, 4));
    match engine.handle_message(Command::GetLastNetInfo) {
        Response::LastNetInfo(a, b) => {
            assert_eq!(NetworkInfo::new(1, 2), a);
            assert_eq!(NetworkInfo::new(3, 4), b);
        }
        _ => panic!("unexpected response"),
    }
    match engine.handle_message(Command::GetNetTxRx { refresh_ms: 1000 }) {
        Response::NetTxRx(tx, rx) => {
            assert_eq!(vec![2], tx);
            assert_eq!(vec![2], rx);
        }
        _ => panic!("unexpected response"),
    }
    assert!(matches!(
        engine.handle_message(Command::GetSystemInfos),
        Response::SystemInfos
    ));
}
