use raft::config::{split_on, parse_cluster, Config, ConfigError};

fn args(list: &[&str]) -> Vec<String> {
    list.iter().map(|s| s.to_string()).collect()
}

#[test]
fn split_pieces() {
    assert_eq!(split_on("a;b;;c", ';'), vec!["a", "b", "", "c"]);
    assert_eq!(split_on("", ';'), vec![""]);
    assert_eq!(split_on("é;x", ';'), vec!["é", "x"]);
    assert_eq!(split_on("abc", ','), vec!["abc"]);
}

#[test]
fn cluster_list() {
    let ms = parse_cluster("1,127.0.0.1:9001;2,127.0.0.1:9002").unwrap();
    assert_eq!(ms.len(), 2);
    assert_eq!(ms[0].id, 1);
    assert_eq!(ms[0].address, "127.0.0.1:9001");
    assert_eq!(ms[1].id, 2);
    assert_eq!(ms[1].address, "127.0.0.1:9002");
    assert_eq!(ms[1].match_index, 0);
    assert_eq!(parse_cluster("1,a,b").unwrap_err(), ConfigError::BadClusterEntry);
    assert_eq!(parse_cluster("1").unwrap_err(), ConfigError::BadClusterEntry);
    assert_eq!(parse_cluster("x,a").unwrap_err(), ConfigError::BadClusterId);
    assert_eq!(parse_cluster("1,a;y,b;c").unwrap_err(), ConfigError::BadClusterId);
}

#[test]
fn full_command_line() {
    let c = Config::new(&args(&["--node", "2", "--http", "0.0.0.0:80", "--cluster", "1,a;2,b;3,c"])).unwrap();
    assert_eq!(c.index, 2);
    assert_eq!(c.http, "0.0.0.0:80");
    assert_eq!(c.cluster.len(), 3);
    assert_eq!(c.cluster[2].address, "c");
    let c = Config::new(&args(&["--cluster", "1,a", "--node", "1", "--cluster", "2,b", "--http", "h"])).unwrap();
    assert_eq!(c.cluster.len(), 2);
    assert_eq!(c.cluster[1].id, 2);
}

#[test]
fn command_line_errors() {
    assert_eq!(Config::new(&args(&[])).unwrap_err(), ConfigError::MissingNode);
    assert_eq!(Config::new(&args(&["--node"])).unwrap_err(), ConfigError::MissingValue);
    assert_eq!(Config::new(&args(&["--node", "x"])).unwrap_err(), ConfigError::BadNode);
    assert_eq!(Config::new(&args(&["--nodes", "1"])).unwrap_err(), ConfigError::UnknownParameter);
    assert_eq!(Config::new(&args(&["--node", "1"])).unwrap_err(), ConfigError::MissingHttp);
    assert_eq!(Config::new(&args(&["--node", "0", "--http", "h", "--cluster", "1,a"])).unwrap_err(), ConfigError::MissingNode);
    assert_eq!(Config::new(&args(&["--node", "1", "--http", "h"])).unwrap_err(), ConfigError::MissingCluster);
    assert_eq!(Config::new(&args(&["--node", "1", "--http", "h", "--cluster", "1;a"])).unwrap_err(), ConfigError::BadClusterEntry);
}
