use ziggurat::config::{ConfigError, NodeKind};

#[test]
fn config_file_paths() {
    assert_eq!(NodeKind::Zebra.config_filepath("/home/u/.ziggurat"), "/home/u/.ziggurat/zebra.toml");
    assert_eq!(NodeKind::Zcashd.config_filepath("/home/u/.ziggurat"), "/home/u/.ziggurat/zcash.conf");
}

#[test]
fn cache_paths() {
    assert_eq!(NodeKind::Zebra.cache_path("/tmp/z"), None);
    assert_eq!(NodeKind::Zcashd.cache_path("/tmp/z"), Some(String::from("/tmp/z/testnet3")));
}

#[test]
fn zebra_config_goes_before_start() {
    let (program, args) = NodeKind::Zebra.start_invocation("  zebrad  -v start ", "/cfg").unwrap();
    assert_eq!(program, "zebrad");
    assert_eq!(args, vec!["-v", "--config", "/cfg/zebra.toml", "start"]);
}

#[test]
fn zcashd_gets_datadir() {
    let (program, args) = NodeKind::Zcashd.start_invocation("zcashd -debug=1", "/cfg").unwrap();
    assert_eq!(program, "zcashd");
    assert_eq!(args, vec!["-debug=1", "-datadir=/cfg"]);
    let (program, args) = NodeKind::Zcashd.start_invocation("zcashd", "/d").unwrap();
    assert_eq!(program, "zcashd");
    assert_eq!(args, vec!["-datadir=/d"]);
}

#[test]
fn unusable_start_commands() {
    assert_eq!(NodeKind::Zebra.start_invocation("zebrad", "/cfg").unwrap_err(), ConfigError::MissingZebraStartArg);
    assert_eq!(NodeKind::Zcashd.start_invocation("   ", "/cfg").unwrap_err(), ConfigError::EmptyStartCommand);
}
