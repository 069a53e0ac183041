use contained::command::{contained_via_command, run_image_via_command, SetupError};

fn strings(items: &[&str]) -> Vec<String> {
    items.iter().map(|s| s.to_string()).collect()
}

#[test]
fn test_run_cmd() {
    let image = "test_image";
    let arguments = strings(&["arg1", "arg2"]);
    let network = "host";
    let mount_readonly = strings(&["/opt", "/run"]);
    let mount_writable = strings(&["/var"]);
    let extra_env = strings(&["MY_ENV=123"]);
    let home = "/root".to_string();
    let current_dir = "/build";

    let cmd = contained_via_command(
        image,
        "/usr/bin/ls",
        "/usr/bin",
        &arguments,
        network,
        false,
        current_dir,
        Some(&home),
        true,
        false,
        &mount_readonly,
        &mount_writable,
        &extra_env,
        None,
        false,
        &vec![true; 8],
    )
    .unwrap();
    assert_eq!(cmd.program, "podman");
    let args: Vec<&str> = cmd.args.iter().map(|s| s.as_str()).collect();

    assert!(args.contains(&"--network=host"));
    assert!(args.contains(&image));
    assert!(args.contains(&"--entrypoint"));
    assert!(args.contains(&"/usr/bin/ls"));
    assert!(args.contains(&"arg1"));
    assert!(args.contains(&"arg2"));

    let path = "/bin";
    let bind = format!("type=bind,source={},target={},readonly", path, path);
    assert!(args.contains(&&*bind), "mount {bind} not found");

    let bind = format!("type=bind,source={},target={},readonly", current_dir, current_dir);
    assert!(args.contains(&&*bind), "mount {bind} not found");

    for path in &mount_readonly {
        let bind = format!("type=bind,source={},target={},readonly", path, path);
        assert!(args.contains(&&*bind), "mount {bind} not found");
    }
    for path in &mount_writable {
        let bind = format!("type=bind,source={},target={}", path, path);
        assert!(args.contains(&&*bind), "mount {bind} not found");
    }

    for var in [
        "LANG",
        "LC_ADDRESS",
        "LC_NAME",
        "LC_MONETARY",
        "LC_PAPER",
        "LC_IDENTIFICATION",
        "LC_TELEPHONE",
        "LC_MEASUREMENT",
        "LC_TIME",
        "LC_NUMERIC",
        "USER",
    ] {
        assert!(args.contains(&var), "env {var} not found");
    }
    for var in &extra_env {
        assert!(args.contains(&&**var), "env {var} not found");
    }
}

#[test]
fn test_run_image_cmd() {
    let image = "test_image";
    let arguments = strings(&["arg1", "arg2"]);
    let entrypoint = Some("test_entrypoint".to_string());
    let network = "host";
    let mount_readonly = strings(&["/opt", "/run"]);
    let mount_writable = strings(&["/var"]);
    let extra_env = strings(&["MY_ENV=123"]);

    let cmd = run_image_via_command(
        image,
        &arguments,
        entrypoint.as_ref(),
        network,
        false,
        "/build",
        None,
        false,
        false,
        &mount_readonly,
        &mount_writable,
        &extra_env,
        None,
        false,
    )
    .unwrap();
    assert_eq!(cmd.program, "podman");
    let args: Vec<&str> = cmd.args.iter().map(|s| s.as_str()).collect();

    assert!(args.contains(&"--network=host"));
    assert!(args.contains(&image));
    assert!(args.contains(&"--entrypoint"));
    assert!(args.contains(&entrypoint.unwrap().as_str()));
    assert!(args.contains(&"arg1"));
    assert!(args.contains(&"arg2"));

    for path in &mount_readonly {
        let bind = format!("type=bind,source={},target={},readonly", path, path);
        assert!(args.contains(&&*bind), "mount {bind} not found");
    }
    for path in &mount_writable {
        let bind = format!("type=bind,source={},target={}", path, path);
        assert!(args.contains(&&*bind), "mount {bind} not found");
    }

    for var in &extra_env {
        assert!(args.contains(&&**var), "env {var} not found");
    }
}

#[test]
fn home_directory_guard() {
    let home = "/build/home".to_string();
    let err = run_image_via_command(
        "img",
        &Vec::new(),
        None,
        "none",
        false,
        "/build",
        Some(&home),
        true,
        false,
        &Vec::new(),
        &Vec::new(),
        &Vec::new(),
        None,
        false,
    )
    .unwrap_err();
    assert_eq!(err, SetupError::HomeConflict);
    assert_eq!(
        err.message(),
        "Cannot run from home directory or its parent directories"
    );

    let err = run_image_via_command(
        "img",
        &Vec::new(),
        None,
        "none",
        false,
        "/build",
        None,
        true,
        false,
        &Vec::new(),
        &Vec::new(),
        &Vec::new(),
        None,
        false,
    )
    .unwrap_err();
    assert_eq!(err, SetupError::HomeNotSet);
    assert_eq!(err.message(), "HOME not set");
}
