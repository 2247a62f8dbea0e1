use pigauge::power::{GpioSample, PowerDecision, PowerState, PowerWatchConfig};

fn sampled(shutdown: bool, changed: Option<bool>) -> PowerDecision {
    PowerDecision::Sampled { shutdown, changed }
}

#[test]
fn initial_state_from_first_sample() {
    assert_eq!(
        PowerState::new(GpioSample::Level(1)),
        PowerState { last_high: true, low_since_ms: None }
    );
    assert_eq!(
        PowerState::new(GpioSample::Level(0)),
        PowerState { last_high: false, low_since_ms: None }
    );
    assert_eq!(
        PowerState::new(GpioSample::ReadError),
        PowerState { last_high: true, low_since_ms: None }
    );
}

#[test]
fn brief_dip_does_not_shut_down() {
    let debounce = 1500;
    let mut st = PowerState::new(GpioSample::Level(1));
    assert_eq!(st.step(GpioSample::Level(0), 1000, debounce), sampled(false, Some(false)));
    assert_eq!(st.low_since_ms, Some(1000));
    assert_eq!(st.step(GpioSample::Level(0), 2000, debounce), sampled(false, None));
    // Power comes back before the debounce time: the timer is cleared.
    assert_eq!(st.step(GpioSample::Level(1), 2400, debounce), sampled(false, Some(true)));
    assert_eq!(st.low_since_ms, None);
    // A new dip starts a new timer.
    assert_eq!(st.step(GpioSample::Level(0), 2600, debounce), sampled(false, Some(false)));
    assert_eq!(st.step(GpioSample::Level(0), 4000, debounce), sampled(false, None));
    assert_eq!(st.low_since_ms, Some(2600));
}

#[test]
fn sustained_loss_shuts_down() {
    let debounce = 1500;
    let mut st = PowerState::new(GpioSample::Level(1));
    assert_eq!(st.step(GpioSample::Level(0), 1000, debounce), sampled(false, Some(false)));
    assert_eq!(st.step(GpioSample::Level(0), 2499, debounce), sampled(false, None));
    assert_eq!(st.step(GpioSample::Level(0), 2500, debounce), sampled(true, None));
    assert_eq!(st.step(GpioSample::Level(0), 12600, debounce), sampled(true, None));
}

#[test]
fn read_errors_change_nothing() {
    let debounce = 1500;
    let mut st = PowerState::new(GpioSample::Level(1));
    st.step(GpioSample::Level(0), 1000, debounce);
    let before = st;
    assert_eq!(st.step(GpioSample::ReadError, 5000, debounce), PowerDecision::ReadFailed);
    assert_eq!(st, before);
    assert_eq!(st.step(GpioSample::Level(0), 5100, debounce), sampled(true, None));
}

#[test]
fn zero_debounce_shuts_down_at_first_low() {
    let mut st = PowerState::new(GpioSample::Level(1));
    assert_eq!(st.step(GpioSample::Level(0), 7, 0), sampled(true, Some(false)));
}

#[test]
fn any_value_but_one_is_low() {
    let mut st = PowerState::new(GpioSample::Level(1));
    assert_eq!(st.step(GpioSample::Level(2), 10, 100), sampled(false, Some(false)));
    assert_eq!(st.step(GpioSample::Level(2), 110, 100), sampled(true, None));
}

#[test]
fn config_holds_plain_values() {
    let cfg = PowerWatchConfig {
        gpio_chip: "/dev/gpiochip0".to_string(),
        gpio_line: 6,
        debounce_ms: 15000,
        shutdown_delay_ms: 500,
        shutdown_cmd: "/sbin/shutdown -h now".to_string(),
    };
    let mut st = PowerState::new(GpioSample::Level(1));
    st.step(GpioSample::Level(0), 0, cfg.debounce_ms);
    assert_eq!(st.step(GpioSample::Level(0), 14999, cfg.debounce_ms), sampled(false, None));
    assert_eq!(st.step(GpioSample::Level(0), 15000, cfg.debounce_ms), sampled(true, None));
}
