use lynx::config::{
    default_host, default_loglevel, default_maxconnections, default_metricshost,
    default_metricsport, default_port, default_rate_limit_burst, default_rate_limit_per_second,
    default_slow_client_threshold,
};
use lynx::rate_limiter::RefillRate;
use lynx::Config;

#[test]
fn test_default_config() {
    let config = Config::default();
    assert_eq!(config.host, "127.0.0.1");
    assert_eq!(config.port, 6006);
    assert_eq!(config.maxconnections, 1000);
    assert_eq!(config.loglevel, "info");
    assert_eq!(config.metricshost, "127.0.0.1");
    assert_eq!(config.metricsport, 9090);
    assert_eq!(config.slow_client_threshold, 50);
    assert_eq!(config.rate_limit_per_second, RefillRate::per_second(10));
    assert_eq!(config.rate_limit_burst, 20);
}

#[test]
fn test_address() {
    let config = Config::default();
    assert_eq!(config.address(), "127.0.0.1:6006");
}

#[test]
fn test_metrics_address() {
    let config = Config::default();
    assert_eq!(config.metrics_address(), "127.0.0.1:9090");
}

#[test]
fn addresses_of_other_values() {
    let config = Config {
        host: "0.0.0.0".to_string(),
        port: 0,
        metricshost: "::1".to_string(),
        metricsport: 65535,
        ..Config::default()
    };
    assert_eq!(config.address(), "0.0.0.0:0");
    assert_eq!(config.metrics_address(), "::1:65535");
}

#[test]
fn default_functions() {
    assert_eq!(default_host(), "127.0.0.1");
    assert_eq!(default_port(), 6006);
    assert_eq!(default_maxconnections(), 1000);
    assert_eq!(default_loglevel(), "info");
    assert_eq!(default_metricshost(), "127.0.0.1");
    assert_eq!(default_metricsport(), 9090);
    assert_eq!(default_slow_client_threshold(), 50);
    assert_eq!(default_rate_limit_per_second().milli_tokens_per_second, 10_000);
    assert_eq!(default_rate_limit_burst(), 20);
}

#[test]
fn addresses_render_ports_in_decimal() {
    for port in [0u16, 7, 10, 6006, 9090, 65535] {
        let config = Config {
            port,
            ..Config::default()
        };
        assert_eq!(config.address(), format!("127.0.0.1:{}", port));
    }
}
