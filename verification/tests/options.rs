use nanofish::{BufferSize, HttpClientOptions};

#[test]
fn test_default_options() {
    let opts = HttpClientOptions::default();
    assert_eq!(opts.max_retries, 5);
    assert_eq!(opts.socket_timeout_ms, 60_000);
    assert_eq!(opts.retry_delay_ms, 200);
    assert_eq!(opts.socket_close_delay_ms, 100);
}

#[test]
fn test_custom_options() {
    let opts = HttpClientOptions {
        max_retries: 2,
        socket_timeout_ms: 10_000,
        retry_delay_ms: 50,
        socket_close_delay_ms: 20,
    };
    assert_eq!(opts.max_retries, 2);
    assert_eq!(opts.socket_timeout_ms, 10_000);
    assert_eq!(opts.retry_delay_ms, 50);
    assert_eq!(opts.socket_close_delay_ms, 20);
}

#[test]
fn test_buffer_size_fields() {
    let sizes = BufferSize {
        read: 4096,
        write: 4096,
    };
    assert_eq!(sizes.read, 4096);
    assert_eq!(sizes.write, 4096);
}
