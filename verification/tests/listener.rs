//! The loopback listener and the form the page answers in.

use base64::engine::general_purpose::URL_SAFE_NO_PAD as B64;
use base64::Engine;

use ducktape::backend::form::form_decode;
use ducktape::backend::form::form_field;
use ducktape::backend::form::hex_digit;
use ducktape::backend::form::result_form;
use ducktape::backend::form::url_encode;
use ducktape::backend::listener::answer;
use ducktape::backend::listener::callback_path;
use ducktape::backend::listener::callback_path_with;
use ducktape::backend::listener::callback_url;
use ducktape::backend::listener::called;
use ducktape::backend::listener::key_called;
use ducktape::backend::listener::respond;
use ducktape::backend::listener::trimmed_text;
use ducktape::backend::listener::Called;
use ducktape::backend::listener::Head;
use ducktape::backend::listener::MAX_BODY;
use ducktape::backend::passkey::Outcome;

fn head_of(lines: &[&str]) -> Head {
    let mut head = Head::begin(lines[0]);
    for line in &lines[1..] {
        if head.heard(line) {
            break;
        }
    }
    head
}

#[test]
fn the_listener_takes_one_post_on_its_path() {
    let path = callback_path();
    let wrong = head_of(&["POST /cb/nope HTTP/1.1\r\n", "Content-Length: 0\r\n", "\r\n"]);
    let stray = called(&path, &wrong, b"", true);
    assert!(matches!(stray, Called::Another));
    assert_eq!(answer(&stray), ("404 Not Found".to_owned(), "Not found.".to_owned()));

    let result = format!(r#"{{"op":"create","publicKey":"{}"}}"#, B64.encode([2; 33]));
    let form = format!("result={}", url_encode(&result));
    assert_eq!(result_form(&result), form);
    let right = head_of(&[&format!("POST {path} HTTP/1.1\r\n"), "\r\n"]);
    assert_eq!(key_called(&path, &right, form.as_bytes()), Some(vec![2; 33]));
    assert_eq!(key_called(&path, &wrong, form.as_bytes()), None);
    let heard = called(&path, &right, form.as_bytes(), true);
    assert_eq!(
        answer(&heard),
        ("200 OK".to_owned(), "Done. You can return to Ducktape.".to_owned())
    );
    assert!(matches!(
        heard,
        Called::Answer(Ok(Outcome::Created(key))) if key == vec![2; 33]
    ));
}

#[test]
fn the_page_is_told_of_a_key_no_verifier_takes() {
    let post = head_of(&["POST /cb/x HTTP/1.1\r\n", "\r\n"]);
    let result = format!(r#"{{"op":"create","publicKey":"{}"}}"#, B64.encode([2; 32]));
    let form = result_form(&result);
    let heard = |taken| called("/cb/x", &post, form.as_bytes(), taken);
    let key = key_called("/cb/x", &post, form.as_bytes()).expect("a key just made");
    assert_eq!(key, vec![2; 32]);
    let refused = heard(key.len() == 33);
    assert_eq!(
        answer(&refused),
        ("200 OK".to_owned(), "That didn't finish. Ducktape has the details.".to_owned())
    );
    assert!(matches!(
        refused,
        Called::Answer(Err(said)) if said == "The browser returned a key Ducktape can't use."
    ));
    assert!(matches!(heard(true), Called::Answer(Ok(Outcome::Created(_)))));
    assert!(matches!(called("/cb/y", &post, form.as_bytes(), false), Called::Another));
}

#[test]
fn a_form_gives_back_its_fields() {
    let pairs = [("a b", "1&2"), ("result", "x=y"), ("", "%+5"), ("result", "later"), ("\u{b7}", "")];
    let form: Vec<String> = pairs
        .iter()
        .map(|(name, value)| format!("{}={}", url_encode(name), url_encode(value)))
        .collect();
    let form = form.join("&");
    for (name, value) in [("a b", "1&2"), ("result", "x=y"), ("", "%+5"), ("\u{b7}", "")] {
        assert_eq!(form_field(form.as_bytes(), name), Some(value.to_owned()));
    }
    assert_eq!(form_field(form.as_bytes(), "other"), None);
}

#[test]
fn only_a_post_with_a_result_is_an_answer() {
    let own = "/cb/x";
    let get = head_of(&["GET /cb/x HTTP/1.1\r\n", "\r\n"]);
    assert!(matches!(called(own, &get, b"result=1", true), Called::Another));
    let post = head_of(&["POST /cb/x HTTP/1.1\r\n", "\r\n"]);
    assert!(matches!(called(own, &post, b"other=1", true), Called::Another));
    let failed = called(own, &post, b"result=1", true);
    assert!(matches!(failed, Called::Answer(Err(_))));
    assert_eq!(
        answer(&failed),
        ("200 OK".to_owned(), "That didn't finish. Ducktape has the details.".to_owned())
    );
}

#[test]
fn a_callback_path_is_fresh_and_long() {
    let path = callback_path();
    let id = path.strip_prefix("/cb/").unwrap();
    assert_eq!(B64.decode(id).unwrap().len(), 32);
    assert_ne!(path, callback_path());
    assert_eq!(callback_path_with(&[0xfb; 32]), format!("/cb/{}", B64.encode([0xfb; 32])));
    assert_eq!(callback_url(65_535, "/cb/x"), "http://127.0.0.1:65535/cb/x");
    assert_eq!(callback_url(0, ""), "http://127.0.0.1:0");
}

#[test]
fn a_head_is_its_first_words_and_its_last_length() {
    let head = head_of(&[
        "  POST\t/cb/x  HTTP/1.1\r\n",
        "Host: 127.0.0.1\r\n",
        "content-LENGTH:  12 \r\n",
        "X-Content-Length: 99\r\n",
        "\r\n",
        "Content-Length: 7\r\n",
    ]);
    assert_eq!((head.method.as_str(), head.path.as_str()), ("POST", "/cb/x"));
    assert_eq!(head.body_length(), 12);
    let empty = head_of(&[""]);
    assert_eq!((empty.method.as_str(), empty.path.as_str()), ("", ""));
    let mut head = Head::begin("POST\r\n");
    assert_eq!(head.path, "");
    assert!(!head.heard("Content-Length: +8\r\n"));
    assert_eq!(head.length, 8);
    assert!(!head.heard("Content-Length: much\r\n"));
    assert_eq!(head.length, 0);
    assert!(!head.heard("Content-Length: 184467440737095516160\r\n"));
    assert_eq!(head.length, 0);
    assert!(head.heard(""), "the stream's end ends the head");
}

#[test]
fn no_more_of_a_body_is_read_than_a_page_sends() {
    let mut head = Head::begin("POST /cb/x HTTP/1.1\r\n");
    assert!(!head.heard("Content-Length: 1000000\r\n"));
    assert_eq!(head.body_length(), MAX_BODY);
    assert_eq!(MAX_BODY, 64 * 1024);
}

#[test]
fn a_response_counts_its_bytes() {
    let response = respond("200 OK", "Done \u{b7}.");
    let (head, html) = response.split_once("\r\n\r\n").unwrap();
    assert_eq!(
        head,
        format!(
            "HTTP/1.1 200 OK\r\nContent-Type: text/html; charset=utf-8\r\nContent-Length: {}\r\nConnection: close",
            html.len()
        )
    );
    assert_eq!(
        html,
        "<!doctype html><meta charset=utf-8><title>Ducktape</title><body style=\"font:16px system-ui;display:grid;place-items:center;min-height:90vh\"><p>Done \u{b7}.</p>"
    );
}

#[test]
fn a_form_decodes_what_was_encoded() {
    let text = "a b&c=d+e%20\u{b7}\u{1f986}";
    assert_eq!(form_decode(url_encode(text).as_bytes()), text.as_bytes());
    assert_eq!(form_decode(b"a+b"), b"a b");
    assert_eq!(form_decode(b"%41%4a%4A"), b"AJJ");
    assert_eq!(form_decode(b"%4"), b"%4");
    assert_eq!(form_decode(b"%"), b"%");
    assert_eq!(form_decode(b"%zz%+"), b"%zz% ");
    assert_eq!(form_decode(b"%+1"), b"% 1", "a sign is no hex digit");
    assert_eq!(form_field(b"result=%+5", "result"), Some("% 5".to_owned()));
}

#[test]
fn a_field_is_the_first_that_is_text() {
    assert_eq!(form_field(b"a=1&result=x%20y&result=z", "result"), Some("x y".to_owned()));
    assert_eq!(form_field(b"result=%ff&result=z", "result"), Some("z".to_owned()));
    assert_eq!(form_field(b"result", "result"), None);
    assert_eq!(form_field(b"", "result"), None);
    assert_eq!(form_field(b"res%75lt=1", "result"), Some("1".to_owned()));
    assert_eq!(form_field(b"result=a=b", "result"), Some("a=b".to_owned()));
    assert_eq!(form_field(b"=v", ""), Some("v".to_owned()));
}

#[test]
fn a_message_survives_its_form() {
    let message = "{\"name\":\"ada \u{b7} net & co\"}";
    let form = result_form(message);
    assert_eq!(form_field(form.as_bytes(), "result"), Some(message.to_owned()));
}

#[test]
fn hex_digits_have_values() {
    assert_eq!(hex_digit(b'9'), Some(9));
    assert_eq!(hex_digit(b'a'), Some(10));
    assert_eq!(hex_digit(b'F'), Some(15));
    assert_eq!(hex_digit(b'g'), None);
}

#[test]
fn text_is_trimmed_of_white_space() {
    assert_eq!(trimmed_text(" \u{2003}ada l \n"), "ada l");
    assert_eq!(trimmed_text(" \t"), "");
}
