//! Helpers of the cell: the memory-pressure replies and the class path.

use droidloom::classpath::{
    check_projection, check_source, check_target, is_normal_absolute, module_directory, mounts,
    Config, FileOverride,
};
use droidloom::lmkd::{
    reply_for, LMK_BOOT_COMPLETED, LMK_GETKILLCNT, LMK_UPDATE_PROPS, MAX_CONTROL_PACKET_BYTES,
};

#[test]
fn synchronous_commands_receive_zero_success() {
    for command in [LMK_GETKILLCNT, LMK_UPDATE_PROPS, LMK_BOOT_COMPLETED] {
        let mut request = command.to_be_bytes().to_vec();
        if command == LMK_GETKILLCNT {
            request.extend_from_slice(&[0; 8]);
        }
        assert_eq!(
            reply_for(&request),
            Some(
                [command.to_be_bytes(), 0_u32.to_be_bytes()]
                    .concat()
                    .try_into()
                    .unwrap()
            )
        );
    }
}

#[test]
fn asynchronous_commands_and_malformed_packets_receive_no_reply() {
    assert_eq!(reply_for(&1_u32.to_be_bytes()), None);
    assert_eq!(reply_for(&[0, 0, 0]), None);
    assert_eq!(reply_for(&[0; MAX_CONTROL_PACKET_BYTES + 4]), None);
}

fn parse_arguments<const N: usize>(arguments: [String; N]) -> Result<Config, String> {
    droidloom::classpath::parse_arguments(&arguments.into_iter().collect())
}

#[test]
fn accepts_one_bounded_projection() {
    assert_eq!(
        parse_arguments([
            "/droidloom/classpath/apex/com.android.virt".into(),
            "com.android.virt".into(),
        ])
        .unwrap(),
        Config {
            projection: "/droidloom/classpath/apex/com.android.virt".into(),
            module: "com.android.virt".into(),
            file_overrides: Vec::new(),
        }
    );
}

#[test]
fn accepts_bounded_apex_file_overrides() {
    assert_eq!(
        parse_arguments([
            "/droidloom/classpath/apex/com.android.virt".into(),
            "com.android.virt".into(),
            "--file-override".into(),
            "/droidloom/classpath/lib64/libservice-connectivity.so".into(),
            "/apex/com.android.tethering/lib64/libservice-connectivity.so".into(),
        ])
        .unwrap()
        .file_overrides,
        vec![FileOverride {
            source: "/droidloom/classpath/lib64/libservice-connectivity.so".into(),
            target: "/apex/com.android.tethering/lib64/libservice-connectivity.so".into(),
        }]
    );
}

#[test]
fn rejects_escape_and_extra_arguments() {
    assert!(parse_arguments(["/vendor/escape".into(), "com.android.virt".into()]).is_err());
    assert!(parse_arguments(["/droidloom/classpath".into(), "../escape".into(),]).is_err());
    assert!(
        parse_arguments([
            "/droidloom/classpath".into(),
            "com.android.virt".into(),
            "extra".into(),
        ])
        .is_err()
    );
    assert!(
        parse_arguments([
            "/droidloom/classpath".into(),
            "com.android.virt".into(),
            "--file-override".into(),
            "/system/lib64/escape.so".into(),
            "/apex/com.android.tethering/lib64/escape.so".into(),
        ])
        .is_err()
    );
    assert!(
        parse_arguments([
            "/droidloom/classpath".into(),
            "com.android.virt".into(),
            "--file-override".into(),
            "/droidloom/classpath/escape.so".into(),
            "/system/lib64/escape.so".into(),
        ])
        .is_err()
    );
}

#[test]
fn resolved_paths_stay_where_they_were_declared() {
    assert_eq!(check_projection("/droidloom/a", "/droidloom/a", true), Ok(()));
    assert_eq!(
        check_projection("/droidloom/a", "/droidloom/b", true),
        Err("projection /droidloom/a resolves outside its declared path".to_owned())
    );
    assert_eq!(
        check_projection("/droidloom/a", "/droidloom/a", false),
        Err("/droidloom/a is not a directory".to_owned())
    );
    assert_eq!(check_source("/droidloom/a", "/droidloom/a", true), Ok(()));
    assert_eq!(
        check_source("/droidloom/a", "/etc/a", true),
        Err("file override source /droidloom/a resolves outside its declared path".to_owned())
    );
    assert_eq!(check_target("/apex/m/a", "/apex/m@1/a", true), Ok(()));
    assert_eq!(
        check_target("/apex/m/a", "/system/a", true),
        Err("file override target /apex/m/a resolves outside /apex".to_owned())
    );
    assert_eq!(
        check_target("/apex/m/a", "/apex/m/a", false),
        Err("/apex/m/a is not a regular file".to_owned())
    );
    assert_eq!(module_directory("com.android.virt"), "/apex/com.android.virt");
    assert!(is_normal_absolute("/droidloom/a"));
    assert!(!is_normal_absolute("droidloom/a"));
    assert!(!is_normal_absolute("/droidloom/../a"));
}

#[test]
fn mounts_start_with_the_module() {
    let library = FileOverride { source: "/droidloom/a".into(), target: "/apex/m/a".into() };
    assert_eq!(
        mounts("/droidloom/apex", "com.android.virt", &vec![library.clone()]),
        vec![
            FileOverride {
                source: "/droidloom/apex".into(),
                target: "/apex/com.android.virt".into(),
            },
            library,
        ]
    );
}
