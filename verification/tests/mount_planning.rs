use omogenexec::mounts::{make_mount, mount_plan, parse_mount_path, read_only_copy_mount, Mount};

#[test]
fn read_only_copy_mirrors_path() {
    let m = read_only_copy_mount(String::from("/usr/bin"));
    assert_eq!(m.outside, "/usr/bin");
    assert_eq!(m.inside, "/usr/bin");
    assert!(!m.writable);
}

#[test]
fn parse_entry_without_colon() {
    let (outside, inside) = parse_mount_path("/data");
    assert_eq!(outside, "/data");
    assert_eq!(inside, "/data");
}

#[test]
fn parse_entry_with_colon() {
    let (outside, inside) = parse_mount_path("/host/dir:/box/dir");
    assert_eq!(outside, "/host/dir");
    assert_eq!(inside, "/box/dir");
}

#[test]
fn parse_splits_at_first_colon_only() {
    let (outside, inside) = parse_mount_path("/a:/b:/c");
    assert_eq!(outside, "/a");
    assert_eq!(inside, "/b:/c");
}

#[test]
fn make_mount_joins_under_root() {
    let m = Mount {
        outside: String::from("/host/data"),
        inside: String::from("/work"),
        writable: true,
    };
    let b = make_mount("/var/lib/omogen/sandbox/3", &m).expect("absolute path accepted");
    assert_eq!(b.source, "/host/data");
    assert_eq!(b.target, "/var/lib/omogen/sandbox/3/work");
    assert!(!b.read_only);
}

#[test]
fn make_mount_accepts_relative_inside() {
    let m = Mount {
        outside: String::from("/host/data"),
        inside: String::from("work"),
        writable: false,
    };
    let b = make_mount("/root", &m).expect("absolute outside accepted");
    assert_eq!(b.target, "/root/work");
    assert!(b.read_only);
}

#[test]
fn make_mount_rejects_relative_outside() {
    let m = Mount {
        outside: String::from("host/data"),
        inside: String::from("/work"),
        writable: false,
    };
    assert!(make_mount("/root", &m).is_err());
}

#[test]
fn plan_orders_sections() {
    let readable = vec![String::from("/ro")];
    let writable = vec![String::from("/rw:/scratch")];
    let plan = mount_plan("/box", true, &readable, &writable, false, true, false)
        .expect("absolute entries accepted");
    assert_eq!(plan.proc_target, "/box/proc");
    let targets: Vec<&str> = plan.binds.iter().map(|b| b.target.as_str()).collect();
    assert_eq!(
        targets,
        vec![
            "/box/bin",
            "/box/usr/bin",
            "/box/usr/lib",
            "/box/lib",
            "/box/ro",
            "/box/scratch",
            "/box/lib64",
        ]
    );
    assert!(plan.binds[4].read_only);
    assert!(!plan.binds[5].read_only);
    assert!(plan.binds[6].read_only);
    assert_eq!(plan.binds[5].source, "/rw");
}

#[test]
fn plan_without_default_mounts() {
    let readable = vec![String::from("/a"), String::from("/b:/c")];
    let writable = vec![];
    let plan = mount_plan("/box", false, &readable, &writable, true, true, true)
        .expect("absolute entries accepted");
    assert_eq!(plan.binds.len(), 2);
    assert_eq!(plan.binds[0].target, "/box/a");
    assert_eq!(plan.binds[1].target, "/box/c");
    assert_eq!(plan.binds[1].source, "/b");
}

#[test]
fn plan_rejects_relative_entry() {
    let readable = vec![String::from("data:/work")];
    let writable = vec![];
    assert!(mount_plan("/box", true, &readable, &writable, false, false, false).is_err());
}

#[test]
fn planned_targets_stay_under_root() {
    let root = "/var/lib/omogen/sandbox/0";
    let readable = vec![String::from("/etc/hosts"), String::from("/x:y/z")];
    let writable = vec![String::from("/tmp/judge:/tmp")];
    let plan = mount_plan(root, true, &readable, &writable, true, true, true)
        .expect("absolute entries accepted");
    let prefix = format!("{}/", root);
    for b in &plan.binds {
        assert!(b.target.starts_with(&prefix));
        assert!(b.target.len() > prefix.len());
    }
}
