use kappa::error_server::{error_body, ErrorHtml, TunnelError};

#[test]
fn io_error_html_escapes_the_message() {
    let e = TunnelError::Io { message: "a > b && a < c".to_string() };
    assert_eq!(
        e.to_html(),
        "\n            <p>\n                IO error from session tunnel\n                <ul>\n                    <li>a &gt; b &amp;&amp; a &lt; c</li>\n                </ul>\n            </p>\n        "
    );
}

#[test]
fn grpc_error_html_shows_code_and_escaped_message() {
    let e = TunnelError::Grpc {
        code_description: "Some requested entity was not found".to_string(),
        message: "<script>".to_string(),
    };
    let html = e.to_html();
    assert!(html.contains("<li><b>Code:</b> Some requested entity was not found</li>"));
    assert!(html.contains("<li><b>Message:</b> &lt;script&gt;</li>"));
    assert!(!html.contains("<script>"));
}

#[test]
fn error_page_has_head_failure_and_tail() {
    let e = TunnelError::Io { message: "refused".to_string() };
    let html = e.to_html();
    let mut body = error_body(e);
    let head = body.poll_next().expect("head");
    assert!(head.contains("<title>Kappa: Tunnel Failed</title>"));
    assert!(head.contains("<h1>Kappa: Tunnel Failed</h1>"));
    assert_eq!(body.poll_next(), Some(html));
    assert_eq!(body.poll_next(), Some("</body></html>".to_string()));
    assert_eq!(body.poll_next(), None);
    assert_eq!(body.poll_next(), None);
}
