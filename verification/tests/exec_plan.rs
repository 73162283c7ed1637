use fleetos_guest_init::error::GuestInitError;
use fleetos_guest_init::exec_plan::exec_plan;
use fleetos_guest_init::protocol::WorkloadConfig;

fn config(path: &str, args: &[&str], env: &[(&str, &str)]) -> WorkloadConfig {
    WorkloadConfig {
        svid_cert_chain_der: vec![],
        svid_private_key_der: vec![],
        env_vars: env.iter().map(|(k, v)| (k.to_string(), v.to_string())).collect(),
        volume_mounts: vec![],
        dummy_ip_routes: vec![],
        workload_binary_path: path.to_string(),
        workload_args: args.iter().map(|a| a.to_string()).collect(),
        trust_domain: String::new(),
        tenant_id: String::new(),
        service_name: String::new(),
        role: String::new(),
        guest_ip: [0; 4],
        netmask: [0; 4],
        gateway: [0; 4],
    }
}

fn exec_text(e: GuestInitError) -> String {
    match e {
        GuestInitError::Exec(m) => m,
        other => panic!("expected an exec error, got {:?}", other),
    }
}

#[test]
fn plan_has_path_first_and_default_path_env() {
    let plan = exec_plan(&config("/usr/bin/app", &["--serve", "-v"], &[("FOO", "bar")])).unwrap();
    assert_eq!(plan.path, "/usr/bin/app");
    assert_eq!(plan.argv, vec!["/usr/bin/app", "--serve", "-v"]);
    assert_eq!(plan.envp, vec!["FOO=bar", "PATH=/usr/local/bin:/usr/bin:/bin"]);
}

#[test]
fn configured_path_is_kept() {
    let plan = exec_plan(&config("/app", &[], &[("PATH", "/opt/bin"), ("A", "")])).unwrap();
    assert_eq!(plan.argv, vec!["/app"]);
    assert_eq!(plan.envp, vec!["PATH=/opt/bin", "A="]);
}

#[test]
fn nul_in_path_is_refused() {
    let e = exec_plan(&config("/bin/a\0b", &["x\0"], &[])).unwrap_err();
    assert_eq!(exec_text(e), "bad path: nul byte found in provided data at position: 6");
}

#[test]
fn nul_in_argument_is_refused() {
    let e = exec_plan(&config("/bin/app", &["ok", "é\0", "\0"], &[("K", "\0")])).unwrap_err();
    // The NUL follows a two-byte character.
    assert_eq!(exec_text(e), "bad arg: nul byte found in provided data at position: 2");
}

#[test]
fn nul_in_environment_is_refused() {
    let e = exec_plan(&config("/bin/app", &[], &[("GOOD", "1"), ("KEY", "v\0al")])).unwrap_err();
    // "KEY=v" precedes the NUL.
    assert_eq!(exec_text(e), "bad env: nul byte found in provided data at position: 5");
}
