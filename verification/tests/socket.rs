use engram_core::socket::{short_socket_dir, socket_path, SUN_PATH_MAX};

#[test]
fn short_socket_dir_keeps_bind_paths_within_sun_len() {
    let file = "00000000-0000-0000-0000-000000000000.vsock_1030";
    for pid in [1, 4242, u32::MAX] {
        let path = socket_path(&short_socket_dir(pid), file);
        let len = path.len();
        assert!(
            len <= SUN_PATH_MAX,
            "bind path {path} is {len}B, over the {SUN_PATH_MAX}B SUN_LEN cap",
        );
    }
}

#[test]
fn socket_dir_carries_the_process() {
    assert_eq!(short_socket_dir(4242), "/tmp/engram-sock-4242");
    assert_eq!(short_socket_dir(0), "/tmp/engram-sock-0");
    assert_ne!(short_socket_dir(12), short_socket_dir(120));
    assert_eq!(
        socket_path(&short_socket_dir(7), "a.sock"),
        "/tmp/engram-sock-7/a.sock"
    );
}
