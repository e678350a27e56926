use mylib::{compose_response, select_page, Page, ROOT_REQUEST_LINE};

#[test]
fn root_request_line_is_the_get_line() {
    assert_eq!(&ROOT_REQUEST_LINE[..], b"GET / HTTP/1.1\r\n");
}

#[test]
fn request_for_the_root_gets_the_main_page() {
    assert_eq!(select_page(b"GET / HTTP/1.1\r\n"), Page::Main);
    assert_eq!(select_page(b"GET / HTTP/1.1\r\nHost: localhost\r\n\r\n"), Page::Main);
    let mut buffer = [0u8; 512];
    buffer[..16].copy_from_slice(b"GET / HTTP/1.1\r\n");
    assert_eq!(select_page(&buffer), Page::Main);
}

#[test]
fn any_other_request_gets_the_not_found_page() {
    assert_eq!(select_page(b""), Page::NotFound);
    assert_eq!(select_page(b"GET / HTTP/1.1\r"), Page::NotFound);
    assert_eq!(select_page(b"GET /x HTTP/1.1\r\n"), Page::NotFound);
    assert_eq!(select_page(b"POST / HTTP/1.1\r\n"), Page::NotFound);
    assert_eq!(select_page(b"GET / HTTP/1.0\r\n"), Page::NotFound);
    assert_eq!(select_page(b" GET / HTTP/1.1\r\n"), Page::NotFound);
    assert_eq!(select_page(&[0u8; 512]), Page::NotFound);
}

#[test]
fn pages_have_their_status_lines_and_files() {
    assert_eq!(Page::Main.status_line(), "HTTP/1.1 200 OK\r\n\r\n");
    assert_eq!(Page::Main.file_name(), "main.html");
    assert_eq!(Page::NotFound.status_line(), "HTTP/1.1 404 NOT FOUND\r\n\r\n");
    assert_eq!(Page::NotFound.file_name(), "404.html");
}

#[test]
fn response_is_the_status_line_followed_by_the_contents() {
    assert_eq!(
        compose_response(Page::Main, "<h1>Hello</h1>"),
        "HTTP/1.1 200 OK\r\n\r\n<h1>Hello</h1>"
    );
    assert_eq!(compose_response(Page::NotFound, ""), "HTTP/1.1 404 NOT FOUND\r\n\r\n");
}
