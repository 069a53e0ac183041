use contained::builder::{contained_body, run_image_body, choose_working_dir};
use contained::container::Tty;

fn all_true(n: usize) -> Vec<bool> {
    std::iter::repeat(true).take(n).collect()
}

fn strings(items: &[&str]) -> Vec<String> {
    items.iter().map(|s| s.to_string()).collect()
}

#[test]
fn test_run_body() {
    let image = "test_image";
    let arguments = strings(&["arg1", "arg2"]);
    let network = "host";
    let user = "1000:1000";
    let mount_readonly = strings(&["/readonly1", "/readonly2"]);
    let mount_writable = strings(&["/writable1"]);
    let extra_env = strings(&["MY_ENV=123"]);
    let tty: Option<Tty> = None;

    let raw = contained_body(
        image,
        "/usr/bin/ls",
        "/usr/bin",
        &arguments,
        network,
        user,
        "/build",
        true,
        false,
        &all_true(8),
        &mount_readonly,
        &mount_writable,
        &extra_env,
        None,
        false,
        &tty,
    );
    let body: serde_json::Value = serde_json::from_slice(&raw).expect("JSON serialize");

    assert_eq!(body["Image"].as_str(), Some(image));
    assert_eq!(
        body["Entrypoint"].as_array().unwrap(),
        &["/usr/bin/ls", "arg1", "arg2",]
    );

    let binds = body["HostConfig"]["Binds"]
        .as_array()
        .expect("Expected Binds to be an array");
    for path in &mount_readonly {
        let bind_str = format!("{}:{}:ro", path, path);
        assert!(
            binds.iter().any(|b| b.as_str() == Some(&bind_str)),
            "Expected bind mount for {:?} in readonly",
            path
        );
    }
    for path in &mount_writable {
        let bind_str = format!("{}:{}:rw", path, path);
        assert!(
            binds.iter().any(|b| b.as_str() == Some(&bind_str)),
            "Expected bind mount for {:?} in writable",
            path
        );
    }

    let env_vars = body["Env"]
        .as_array()
        .expect("Expected Env to be an array")
        .iter()
        .map(|e| e.as_str().unwrap())
        .collect::<Vec<&str>>();
    for var in &extra_env {
        assert!(
            env_vars.contains(&var.as_str()),
            "Expected environment variable '{}' in container body",
            var
        );
    }
}

#[test]
fn test_run_image_body() {
    let image = "test_image";
    let arguments = strings(&["arg1", "arg2"]);
    let entrypoint = Some("test_entrypoint".to_string());
    let network = "host";
    let user = "1000:1000";
    let mount_readonly = strings(&["/readonly1", "/readonly2"]);
    let mount_writable = strings(&["/writable1"]);
    let extra_env = strings(&["MY_ENV=123"]);
    let tty: Option<Tty> = None;

    let raw = run_image_body(
        image,
        &arguments,
        entrypoint.as_ref(),
        network,
        user,
        "/build",
        true,
        false,
        &all_true(2),
        &mount_readonly,
        &mount_writable,
        &extra_env,
        None,
        false,
        &tty,
    );
    let body: serde_json::Value = serde_json::from_slice(&raw).expect("JSON serialize");

    assert_eq!(body["Image"].as_str(), Some(image));
    assert_eq!(
        body["Entrypoint"].as_array().unwrap().get(0).unwrap().as_str(),
        entrypoint.as_deref(),
    );

    let binds = body["HostConfig"]["Binds"]
        .as_array()
        .expect("Expected Binds to be an array");
    for path in &mount_readonly {
        let bind_str = format!("{}:{}:ro", path, path);
        assert!(
            binds.iter().any(|b| b.as_str() == Some(&bind_str)),
            "Expected bind mount for {:?} in readonly",
            path
        );
    }
    for path in &mount_writable {
        let bind_str = format!("{}:{}:rw", path, path);
        assert!(
            binds.iter().any(|b| b.as_str() == Some(&bind_str)),
            "Expected bind mount for {:?} in writable",
            path
        );
    }

    let env_vars = body["Env"]
        .as_array()
        .expect("Expected Env to be an array")
        .iter()
        .map(|e| e.as_str().unwrap())
        .collect::<Vec<&str>>();
    for var in &extra_env {
        assert!(
            env_vars.contains(&var.as_str()),
            "Expected environment variable '{}' in container body",
            var
        );
    }
}

#[test]
fn create_body_scenario() {
    let arguments = strings(&["-l"]);
    let tty: Option<Tty> = None;
    let raw = contained_body(
        "empty",
        "/usr/bin/ls",
        "/usr/bin",
        &arguments,
        "none",
        "1000:1000",
        "/build",
        false,
        false,
        &vec![false; 8],
        &strings(&["/opt"]),
        &strings(&["/data"]),
        &strings(&["FOO=1"]),
        None,
        false,
        &tty,
    );
    let body: serde_json::Value = serde_json::from_slice(&raw).unwrap();
    assert_eq!(body["Entrypoint"].as_array().unwrap(), &["/usr/bin/ls", "-l"]);
    assert_eq!(body["HostConfig"]["NetworkMode"].as_str(), Some("none"));
    let binds = body["HostConfig"]["Binds"].as_array().unwrap();
    assert!(binds.iter().any(|b| b.as_str() == Some("/opt:/opt:ro")));
    assert!(binds.iter().any(|b| b.as_str() == Some("/data:/data:rw")));
    let env = body["Env"].as_array().unwrap();
    assert!(env.iter().any(|e| e.as_str() == Some("FOO=1")));
    assert_eq!(body["HostConfig"]["ReadonlyRootfs"].as_bool(), Some(true));
    assert_eq!(body["WorkingDir"].as_str(), Some("/"));
    assert_eq!(body["Tty"].as_bool(), Some(false));
}

#[test]
fn tty_dimensions_in_body() {
    let raw = contained_body(
        "empty",
        "/bin/sh",
        "/bin",
        &Vec::new(),
        "none",
        "0:0",
        "/",
        false,
        false,
        &vec![false; 8],
        &Vec::new(),
        &Vec::new(),
        &Vec::new(),
        None,
        false,
        &Some(Tty::new(24, 80)),
    );
    let body: serde_json::Value = serde_json::from_slice(&raw).unwrap();
    assert_eq!(body["Tty"].as_bool(), Some(true));
    let size = body["HostConfig"]["ConsoleSize"].as_array().unwrap();
    assert_eq!(size[0].as_u64(), Some(24));
    assert_eq!(size[1].as_u64(), Some(80));
}

#[test]
fn working_dir_rule() {
    assert_eq!(choose_working_dir(true, None, "/build"), "/build");
    assert_eq!(choose_working_dir(false, None, "/build"), "/");
    let wd = "/elsewhere".to_string();
    assert_eq!(choose_working_dir(true, Some(&wd), "/build"), "/elsewhere");
    assert_eq!(choose_working_dir(false, Some(&wd), "/build"), "/elsewhere");
}
