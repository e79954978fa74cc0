use music_server::server::is_get_root;
use music_server::server::route;

#[test]
fn root_request_gets_the_greeting_page() {
    assert!(is_get_root("GET / HTTP/1.1"));
    let (status, file) = route("GET / HTTP/1.1");
    assert_eq!(status, "HTTP/1.1 200 OK");
    assert_eq!(file, "../static/hello.html");
}

#[test]
fn any_other_request_gets_not_found() {
    assert!(!is_get_root("GET /missing HTTP/1.1"));
    let (status, file) = route("GET /missing HTTP/1.1");
    assert_eq!(status, "HTTP/1.1 404 NOT FOUND");
    assert_eq!(file, "../static/404.html");
    let (status2, _) = route("");
    assert_eq!(status2, "HTTP/1.1 404 NOT FOUND");
}

#[test]
fn payload_types_round_trip_their_fields() {
    let playlist = music_server::playlist::CreatePlaylistPayload {
        name: String::from("road trip"),
        description: Some(String::from("for the car")),
    };
    assert_eq!(playlist.name, "road trip");
    assert_eq!(playlist.description.as_deref(), Some("for the car"));
    let friend = music_server::friends::AddFriendPayload { username: String::from("dave") };
    assert_eq!(friend.username, "dave");
    let login = music_server::models::LoginPayload {
        username: String::from("dave"),
        password: String::from("hunter2"),
    };
    assert_eq!(login.username, "dave");
    assert_eq!(login.password, "hunter2");
}
