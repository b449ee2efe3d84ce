use ambient_lighting::monitor_config::MonitorConfiguration;
use ambient_lighting::side::Side;

fn one_monitor_text() -> Vec<u8> {
    b"{\"monitor_configuration\": [{\"monitor\": 1, \"led_order\": \"br\", \
\"diagonal_size\": 27.000, \"led_count\": {\"top\": 0, \"left\": 0, \
\"right\": 0, \"bottom\": 4}, \"leds_per_inch\": 1.000, \
\"bezel_thickness\": {\"top\": 0.000, \"left\": 0.125, \"right\": 0.250, \
\"bottom\": 1.000}}]}"
        .to_vec()
}

#[test]
fn a_saved_layout_parses_field_for_field() {
    let config = MonitorConfiguration::from_json(&one_monitor_text()).unwrap();
    assert_eq!(config.monitors.len(), 1);
    let m = &config.monitors[0];
    assert_eq!(m.monitor_number, 1);
    assert_eq!(m.led_order.data.len(), 1);
    assert_eq!(m.led_order.data[0].side, Side::BOTTOM);
    assert_eq!(m.led_order.data[0].direction, Side::RIGHT);
    assert_eq!(m.diagonal_size, 27_000);
    assert_eq!(m.led_distribution.bottom, 4);
    assert_eq!(m.led_distribution.top, 0);
    assert_eq!(m.leds_per_inch, 1_000);
    assert_eq!(m.bezel_thickness.top, 0);
    assert_eq!(m.bezel_thickness.left, 125);
    assert_eq!(m.bezel_thickness.right, 250);
    assert_eq!(m.bezel_thickness.bottom, 1_000);
}

#[test]
fn a_layout_may_list_several_monitors() {
    let mut text = one_monitor_text();
    // splice a second monitor after the first
    let tail = b"]}".len();
    let first_end = text.len() - tail;
    let second = b", {\"monitor\": 2, \"led_order\": \"tl\", \"diagonal_size\": 24.000, \
\"led_count\": {\"top\": 8, \"left\": 0, \"right\": 0, \"bottom\": 0}, \
\"leds_per_inch\": 2.000, \"bezel_thickness\": {\"top\": 0.000, \"left\": 0.000, \
\"right\": 0.000, \"bottom\": 0.000}}";
    text.splice(first_end..first_end, second.iter().copied());
    let config = MonitorConfiguration::from_json(&text).unwrap();
    assert_eq!(config.monitors.len(), 2);
    assert_eq!(config.monitors[1].monitor_number, 2);
    assert_eq!(config.monitors[1].led_distribution.top, 8);
    assert_eq!(config.monitors[1].leds_per_inch, 2_000);
}

#[test]
fn an_empty_layout_list_parses() {
    let config =
        MonitorConfiguration::from_json(b"{\"monitor_configuration\": []}").unwrap();
    assert_eq!(config.monitors.len(), 0);
}

#[test]
fn bad_layout_text_is_rejected() {
    // unknown wiring symbol
    let mut bad = one_monitor_text();
    let pos = bad.windows(4).position(|w| w == b"\"br\"").unwrap();
    bad[pos + 1] = b'x';
    assert!(MonitorConfiguration::from_json(&bad).is_none());

    // a zero capture-source index
    let bad: Vec<u8> = one_monitor_text()
        .iter()
        .copied()
        .collect::<Vec<u8>>()
        .splitn(2, |_| false)
        .next()
        .unwrap()
        .to_vec();
    let bad = {
        let mut t = bad;
        let pos = t.windows(13).position(|w| w == b"\"monitor\": 1,").unwrap();
        t[pos + 11] = b'0';
        t
    };
    assert!(MonitorConfiguration::from_json(&bad).is_none());

    // truncated text
    let mut t = one_monitor_text();
    t.truncate(t.len() - 1);
    assert!(MonitorConfiguration::from_json(&t).is_none());

    // trailing bytes
    let mut t = one_monitor_text();
    t.push(b' ');
    assert!(MonitorConfiguration::from_json(&t).is_none());

    assert!(MonitorConfiguration::from_json(b"").is_none());
}

#[test]
fn out_of_bound_values_are_rejected() {
    // a diagonal beyond a thousand inches
    let text = one_monitor_text();
    let replaced: Vec<u8> = String::from_utf8(text)
        .unwrap()
        .replace("27.000", "1234.567")
        .into_bytes();
    assert!(MonitorConfiguration::from_json(&replaced).is_none());

    // more LEDs on an edge than the mapper supports
    let replaced: Vec<u8> = String::from_utf8(one_monitor_text())
        .unwrap()
        .replace("\"bottom\": 4}", "\"bottom\": 10001}")
        .into_bytes();
    assert!(MonitorConfiguration::from_json(&replaced).is_none());
}
