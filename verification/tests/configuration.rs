use omogenexec::context::{
    build_context, container_path_for, sandbox_group_name, sandbox_user_name, validated_opts, Opt,
};
use omogenexec::quota::{find_quota_source, MountEntry};
use omogenexec::streams::{stream_plan, FileAccessMode, StreamDirective};

fn opt(sandbox_id: u32) -> Opt {
    Opt {
        sandbox_id,
        stdin: Some(String::from("in.txt")),
        stdout: Some(String::from("out.txt")),
        stderr: None,
        readable: vec![String::from("/ro")],
        writable: vec![String::from("/rw")],
        working_dir: String::from("/work"),
        no_default_mounts: false,
        env: vec![String::from("PATH=/bin")],
        blocks: 1000,
        inodes: 100,
        memory_mb: 256,
        time_lim_ms: 1000,
        wall_time_lim_ms: 2000,
        pid_limit: 16,
    }
}

#[test]
fn ids_below_hundred_accepted() {
    assert!(validated_opts(opt(0)).is_ok());
    assert!(validated_opts(opt(99)).is_ok());
    assert!(validated_opts(opt(100)).is_err());
    assert!(validated_opts(opt(u32::MAX)).is_err());
}

#[test]
fn names_follow_the_id() {
    assert_eq!(sandbox_user_name(7), "omogenexec-user7");
    assert_eq!(sandbox_group_name(), "omogenexec-users");
    assert_eq!(container_path_for(7), "/var/lib/omogen/sandbox/7");
    assert_eq!(container_path_for(99), "/var/lib/omogen/sandbox/99");
}

#[test]
fn context_carries_scaled_limits() {
    let c = build_context(opt(3), 1003, 2000).expect("valid options accepted");
    assert_eq!(c.sandbox_id, 3);
    assert_eq!(c.sandbox_uid, 1003);
    assert_eq!(c.sandbox_gid, 2000);
    assert_eq!(c.container_path, "/var/lib/omogen/sandbox/3");
    assert_eq!(c.stdin, "in.txt");
    assert_eq!(c.stdout, "out.txt");
    assert_eq!(c.stderr, "");
    assert_eq!(c.mem_limit_bytes, 256 * 1024 * 1024);
    assert_eq!(c.time_lim_ns, 1_000_000_000);
    assert_eq!(c.wall_time_lim_ns, 2_000_000_000);
    assert_eq!(c.pid_limit, 16);
    assert!(c.default_mounts);
    assert_eq!(c.readable, vec![String::from("/ro")]);
    assert_eq!(c.writable, vec![String::from("/rw")]);
    assert_eq!(c.working_directory, "/work");
    assert_eq!(c.env, vec![String::from("PATH=/bin")]);
}

#[test]
fn context_rejects_oversized_limits() {
    let mut o = opt(1);
    o.memory_mb = u64::MAX / 1024;
    assert!(build_context(o, 1, 1).is_err());
    let mut o = opt(1);
    o.time_lim_ms = u64::MAX / 1000;
    assert!(build_context(o, 1, 1).is_err());
    assert!(build_context(opt(100), 1, 1).is_err());
}

#[test]
fn quota_source_is_first_device_match() {
    let mounts = vec![
        MountEntry { dev: 10, source: String::from("/dev/sda1") },
        MountEntry { dev: 20, source: String::from("/dev/sdb1") },
        MountEntry { dev: 20, source: String::from("/dev/sdb1-bind") },
    ];
    assert_eq!(find_quota_source(20, &mounts), Some(1));
    assert_eq!(find_quota_source(10, &mounts), Some(0));
    assert_eq!(find_quota_source(30, &mounts), None);
    assert_eq!(find_quota_source(20, &vec![]), None);
}

#[test]
fn streams_close_on_empty_path() {
    let p = stream_plan(
        &String::from("in.txt"),
        &String::from(""),
        &String::from("err.txt"),
    );
    match p.stdin {
        StreamDirective::Reopen(path, mode) => {
            assert_eq!(path, "in.txt");
            assert_eq!(mode, FileAccessMode::Readable);
        }
        StreamDirective::Close => panic!("stdin has a path and must be reopened"),
    }
    match p.stdout {
        StreamDirective::Close => {}
        StreamDirective::Reopen(..) => panic!("an empty path means close"),
    }
    match p.stderr {
        StreamDirective::Reopen(path, mode) => {
            assert_eq!(path, "err.txt");
            assert_eq!(mode, FileAccessMode::Writable);
        }
        StreamDirective::Close => panic!("stderr has a path and must be reopened"),
    }
}
