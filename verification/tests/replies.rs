use account_registry::json::JsonValue;
use account_registry::protocol::Outcome;
use account_registry::reply::{
    fault, home_reply, refusal, registration_reply, told_reply, user_page_reply,
    users_json_reply, users_page_reply, ContentType, PageFault, PayloadFault, BAD_REQUEST,
    CREATED, INTERNAL_SERVER_ERROR, OK,
};
use account_registry::username::Rejection;

#[test]
fn statuses_are_the_usual_numbers() {
    assert_eq!(OK, 200);
    assert_eq!(CREATED, 201);
    assert_eq!(BAD_REQUEST, 400);
    assert_eq!(INTERNAL_SERVER_ERROR, 500);
}

#[test]
fn content_types_have_their_header_names() {
    assert_eq!(ContentType::TextPlain.as_str(), "text/plain");
    assert_eq!(ContentType::TextHtml.as_str(), "text/html");
    assert_eq!(ContentType::ApplicationJson.as_str(), "application/json");
}

#[test]
fn inserted_is_created_with_a_reference() {
    let reply = registration_reply(Outcome::Inserted {
        location: "http://localhost:3000//user/alice12".to_string(),
    });
    assert_eq!(reply.status, 201);
    assert_eq!(reply.content_type, ContentType::TextPlain);
    assert_eq!(reply.location, Some("http://localhost:3000//user/alice12".to_string()));
    assert_eq!(reply.body, "");
}

#[test]
fn duplicate_is_a_bad_request() {
    let reply = registration_reply(Outcome::RejectedDuplicate);
    assert_eq!(reply.status, 400);
    assert_eq!(reply.content_type, ContentType::TextPlain);
    assert_eq!(reply.location, None);
    assert_eq!(reply.body, "User already exists.");
}

#[test]
fn rejected_username_is_a_bad_request() {
    for reason in [Rejection::MalformedPayload, Rejection::InvalidFormat] {
        let reply = registration_reply(Outcome::RejectedInvalid(reason));
        assert_eq!(reply.status, 400);
        assert_eq!(reply.content_type, ContentType::TextPlain);
        assert_eq!(reply.location, None);
        assert_eq!(reply.body, "JSON payload structure invalid.");
        assert_eq!(refusal(reason), (400, "JSON payload structure invalid.".to_string()));
    }
}

#[test]
fn failure_is_a_server_error_in_fixed_words() {
    let reply = registration_reply(Outcome::Failed);
    assert_eq!(reply.status, 500);
    assert_eq!(reply.content_type, ContentType::TextPlain);
    assert_eq!(reply.location, None);
    assert_eq!(reply.body, "Internal server error. Contact site administrator for assistance.");
}

#[test]
fn each_fault_has_its_status_and_reason() {
    assert_eq!(fault(PayloadFault::JsonSyntaxError), (400, "Invalid JSON syntax.".to_string()));
    assert_eq!(
        fault(PayloadFault::JsonDataError),
        (400, "Given JSON data structure does not match expected parsed result.".to_string())
    );
    assert_eq!(
        fault(PayloadFault::MissingJsonContentType),
        (400, "Missing JSON content type in request header.".to_string())
    );
    assert_eq!(
        fault(PayloadFault::BytesRejection),
        (500, "Failed to buffer request body.".to_string())
    );
    assert_eq!(fault(PayloadFault::Unknown), (500, "Unknown error".to_string()));
}

#[test]
fn what_was_told_becomes_a_plain_reply() {
    let reply = told_reply((418, "teapot".to_string()));
    assert_eq!(reply.status, 418);
    assert_eq!(reply.content_type, ContentType::TextPlain);
    assert_eq!(reply.location, None);
    assert_eq!(reply.body, "teapot");
}

#[test]
fn home_page_is_shown_or_fails() {
    let reply = home_reply(Some("<p>welcome</p>".to_string()));
    assert_eq!(reply.status, 200);
    assert_eq!(reply.content_type, ContentType::TextHtml);
    assert_eq!(reply.body, "<p>welcome</p>");
    assert_eq!(reply.location, None);
    let reply = home_reply(None);
    assert_eq!(reply.status, 500);
    assert_eq!(reply.content_type, ContentType::TextHtml);
    assert_eq!(
        reply.body,
        "<h1>Internal server error. Please contact site administrator for help.<h1>"
    );
}

#[test]
fn users_page_says_which_step_failed() {
    let reply = users_page_reply(Ok("<ul></ul>".to_string()));
    assert_eq!((reply.status, reply.body.as_str()), (200, "<ul></ul>"));
    assert_eq!(reply.content_type, ContentType::TextHtml);
    let reply = users_page_reply(Err(PageFault::Listing));
    assert_eq!(reply.status, 500);
    assert_eq!(reply.content_type, ContentType::TextHtml);
    assert_eq!(reply.body, "<h1>Internal server error: Cannot display users.<h1>");
    let reply = users_page_reply(Err(PageFault::Rendering));
    assert_eq!(reply.status, 500);
    assert_eq!(reply.content_type, ContentType::TextHtml);
    assert_eq!(reply.body, "<h1>Internal server error: Cannot display page.<h1>");
}

#[test]
fn users_as_data_or_a_server_error() {
    let reply = users_json_reply(Ok("[]".to_string()));
    assert_eq!(reply.status, 200);
    assert_eq!(reply.content_type, ContentType::ApplicationJson);
    assert_eq!(reply.body, "[]");
    assert_eq!(reply.location, None);
    for cause in [PageFault::Listing, PageFault::Rendering] {
        let reply = users_json_reply(Err(cause));
        assert_eq!(reply.status, 500);
        assert_eq!(reply.content_type, ContentType::TextPlain);
        assert_eq!(reply.body, "Internal server error");
    }
}

#[test]
fn single_account_page_is_under_construction() {
    let reply = user_page_reply();
    assert_eq!(reply.status, 200);
    assert_eq!(reply.content_type, ContentType::TextHtml);
    assert_eq!(reply.body, "Hello! Under construction..");
    assert_eq!(reply.location, None);
}

#[test]
fn text_of_a_value() {
    assert_eq!(JsonValue::String("abc".to_string()).as_str(), Some("abc"));
    assert_eq!(JsonValue::String(String::new()).as_str(), Some(""));
    assert_eq!(JsonValue::Null.as_str(), None);
    assert_eq!(JsonValue::Bool(true).as_str(), None);
    assert_eq!(JsonValue::Number("12".to_string()).as_str(), None);
    assert_eq!(JsonValue::Array(vec![JsonValue::String("abc".to_string())]).as_str(), None);
    assert_eq!(JsonValue::Object(vec![]).as_str(), None);
}

#[test]
fn member_of_a_value() {
    let body = JsonValue::Object(vec![
        ("a".to_string(), JsonValue::Number("65".to_string())),
        ("username".to_string(), JsonValue::String("first".to_string())),
        ("username".to_string(), JsonValue::String("second".to_string())),
        ("".to_string(), JsonValue::Bool(true)),
    ]);
    assert_eq!(body.get("username").unwrap().as_str(), Some("first"));
    assert!(matches!(body.get("a"), Some(JsonValue::Number(n)) if n == "65"));
    assert!(matches!(body.get(""), Some(JsonValue::Bool(true))));
    assert!(body.get("user").is_none());
    assert!(body.get("usernames").is_none());
    assert!(body.get("Username").is_none());
    assert!(JsonValue::Array(vec![JsonValue::Null]).get("username").is_none());
    assert!(JsonValue::String("username".to_string()).get("username").is_none());
    assert!(JsonValue::Null.get("username").is_none());
}
