use password_manager::audit::LogAction;
use password_manager::cors::{ClientType, CORS};

#[test]
fn client_type_from_is_case_insensitive() {
    assert_eq!(ClientType::from("web"), ClientType::Web);
    assert_eq!(ClientType::from("WEB"), ClientType::Web);
    assert_eq!(ClientType::from("Game"), ClientType::Game);
    assert_eq!(ClientType::from("mobile"), ClientType::Mobile);
    assert_eq!(ClientType::from("Desktop"), ClientType::Desktop);
    assert_eq!(ClientType::from("anything else"), ClientType::Service);
    assert_eq!(ClientType::from(""), ClientType::Service);
}

#[test]
fn methods_per_client_type() {
    assert_eq!(
        CORS::get_methods_for_client_type(&ClientType::Web),
        vec!["GET", "POST", "PUT", "DELETE", "OPTIONS"]
    );
    assert_eq!(
        CORS::get_methods_for_client_type(&ClientType::Game),
        vec!["GET", "POST", "OPTIONS"]
    );
    assert_eq!(
        CORS::get_methods_for_client_type(&ClientType::Mobile),
        vec!["GET", "POST", "PUT", "OPTIONS"]
    );
}

#[test]
fn headers_per_client_type() {
    assert_eq!(
        CORS::get_headers_for_client_type(&ClientType::Web),
        "Content-Type, Authorization, Accept, X-Real-IP, X-Requested-With"
    );
    assert_eq!(
        CORS::get_headers_for_client_type(&ClientType::Service),
        "Content-Type, Authorization, X-Service-ID"
    );
}

#[test]
fn new_parses_origin_rules() {
    let cors = CORS::new("example.com:web, api.example.com : game");
    let web = cors.is_origin_allowed("example.com").unwrap();
    assert_eq!(web.client_type, ClientType::Web);
    assert_eq!(
        web.allowed_methods,
        vec!["GET", "POST", "PUT", "DELETE", "OPTIONS"]
    );
    let game = cors.is_origin_allowed("api.example.com").unwrap();
    assert_eq!(game.client_type, ClientType::Game);
    assert!(cors.is_origin_allowed("evil.example.com").is_none());
}

#[test]
fn later_registration_of_same_origin_wins() {
    let cors = CORS::new("a.example:web,a.example:game");
    let got = cors.is_origin_allowed("a.example").unwrap();
    assert_eq!(got.client_type, ClientType::Game);
}

#[test]
fn piece_without_colon_is_ignored() {
    let cors = CORS::new("justanorigin");
    assert!(cors.is_origin_allowed("justanorigin").is_none());
}

#[test]
fn unknown_type_word_means_service() {
    let cors = CORS::new("svc.example:internal");
    let got = cors.is_origin_allowed("svc.example").unwrap();
    assert_eq!(got.client_type, ClientType::Service);
    assert_eq!(got.allowed_methods, vec!["GET", "POST", "OPTIONS"]);
}

#[test]
fn log_action_names() {
    assert_eq!(LogAction::Create.to_string(), "create");
    assert_eq!(LogAction::Update.to_string(), "update");
    assert_eq!(LogAction::Delete.to_string(), "delete");
    assert_eq!(LogAction::Read.to_string(), "read");
    assert_eq!(LogAction::Custom("merge".to_string()).to_string(), "merge");
}
