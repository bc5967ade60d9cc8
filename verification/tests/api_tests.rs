use verify_bot::api::{
    api_failure_message, bearer, chat_ban_request, discord_user_url, is_success,
    lookup_answer_step, player_url, set_chat_banned_url, status_text, strict_answer_step,
    verified_url, verify_failure_message, AnswerStep, ApiErrorResponse,
};

#[test]
fn request_addresses() {
    assert_eq!(
        verified_url("https://api.example", 111, 222),
        "https://api.example/api/Discord/Verified/111/222"
    );
    assert_eq!(discord_user_url("http://h", 5), "http://h/api/Discord/User/5");
    assert_eq!(player_url("http://h", "someckey"), "http://h/api/User?ckey=someckey");
    assert_eq!(set_chat_banned_url("http://h"), "http://h/api/Authentik/SetChatBanned");
    assert_eq!(bearer("abc"), "Bearer abc");
}

#[test]
fn chat_ban_body() {
    let r = chat_ban_request(987654321, true);
    assert_eq!(r.discord_id, "987654321");
    assert!(r.banned);
    assert!(!chat_ban_request(1, false).banned);
}

#[test]
fn answer_steps() {
    assert!(is_success(200) && is_success(299) && !is_success(300) && !is_success(199));
    assert!(matches!(strict_answer_step(204), AnswerStep::ReadRecord));
    assert!(matches!(strict_answer_step(404), AnswerStep::ReadError));
    assert!(matches!(lookup_answer_step(200), AnswerStep::ReadRecord));
    assert!(matches!(lookup_answer_step(404), AnswerStep::NoRecord));
    assert!(matches!(lookup_answer_step(500), AnswerStep::ReadError));
}

#[test]
fn status_is_written_like_reqwest_writes_it() {
    assert_eq!(status_text(404), "404 Not Found");
    assert_eq!(status_text(500), "500 Internal Server Error");
    assert_eq!(status_text(599), "599 <unknown status code>");
    for code in [200u16, 401, 418, 503, 999] {
        assert_eq!(status_text(code), reqwest::StatusCode::from_u16(code).unwrap().to_string());
    }
}

#[test]
fn failure_messages() {
    let body = ApiErrorResponse { error: "user_not_found".to_string(), message: "No such user".to_string() };
    assert_eq!(verify_failure_message(Some(&body), 404), "No such user");
    assert_eq!(api_failure_message(Some(&body), 404), "user_not_found: No such user");
    assert_eq!(verify_failure_message(None, 502), "API request failed with status: 502 Bad Gateway");
    assert_eq!(api_failure_message(None, 401), "API request failed with status: 401 Unauthorized");
}
