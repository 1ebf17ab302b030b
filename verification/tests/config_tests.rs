use nimbus_server::config::Config;

#[test]
fn default_config_values() {
    let c = Config::default_config();
    assert_eq!(c.ip, "127.0.0.1:8080");
    assert_eq!(c.data_dir, "/home/zeroone/nimbus_server/");
    assert_eq!(c.user.name, "Alice");
    assert_eq!(c.user.pass, "AliceTheBest123");
}
