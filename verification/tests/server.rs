use lynx::clients::Clients;
use lynx::rate_limiter::RefillRate;
use lynx::server::{admit_connection, end_session, process_message, Outcome, Step};
use lynx::{Config, Message, Response};
use tokio::sync::mpsc::{channel, Receiver, Sender};

/// One client connection: its username slot and its response channel.
struct Conn {
    username: Option<String>,
    tx: Sender<Response>,
    rx: Receiver<Response>,
}

impl Conn {
    fn new() -> Self {
        let (tx, rx) = channel::<Response>(100);
        Conn {
            username: None,
            tx,
            rx,
        }
    }
}

struct Server {
    clients: Clients,
    config: Config,
    now_ms: u64,
}

impl Server {
    fn new(config: Config) -> Self {
        Server {
            clients: Clients::new(),
            config,
            now_ms: 1_000_000,
        }
    }

    fn handle(&mut self, conn: &mut Conn, msg: Message) -> Step {
        process_message(
            &msg,
            &mut conn.username,
            &mut self.clients,
            &conn.tx,
            self.config.slow_client_threshold,
            self.config.rate_limit_per_second,
            self.config.rate_limit_burst,
            self.now_ms,
        )
    }

    fn login(&mut self, conn: &mut Conn, name: &str) -> Response {
        self.handle(
            conn,
            Message::Connect {
                username: name.to_string(),
            },
        )
        .reply
        .unwrap()
    }

    fn users(&mut self, conn: &mut Conn) -> Vec<String> {
        match self.handle(conn, Message::ListUsers).reply {
            Some(Response::UserList { users }) => users,
            other => panic!("expected UserList, got {:?}", other),
        }
    }
}

#[test]
fn test_connect_success() {
    let mut server = Server::new(Config::default());
    let mut client = Conn::new();
    let response = server.login(&mut client, "alice");
    assert!(matches!(response, Response::Success { message } if message.contains("alice")));
}

#[test]
fn welcome_text_is_exact() {
    let mut server = Server::new(Config::default());
    let mut client = Conn::new();
    let step = server.handle(
        &mut client,
        Message::Connect {
            username: "alice".to_string(),
        },
    );
    assert!(matches!(step.reply, Some(Response::Success { message }) if message == "welcome, alice!"));
    assert_eq!(step.outcome, Outcome::Registered);
    assert_eq!(client.username.as_deref(), Some("alice"));
}

#[test]
fn test_room_message_broadcast() {
    let mut server = Server::new(Config::default());
    let mut alice = Conn::new();
    let mut bob = Conn::new();
    server.login(&mut alice, "alice");
    server.login(&mut bob, "bob");

    let step = server.handle(
        &mut alice,
        Message::SendRoomMessage {
            text: "hello everyone".to_string(),
        },
    );
    assert!(step.reply.is_none());
    assert_eq!(step.outcome, Outcome::RoomMessage);

    let response = alice.rx.try_recv().unwrap();
    assert!(matches!(
        response,
        Response::IncomingMessage { from, text, room: Some(_) }
        if from == "alice" && text == "hello everyone"
    ));
    let response = bob.rx.try_recv().unwrap();
    assert!(matches!(
        response,
        Response::IncomingMessage { from, text, room: Some(r) }
        if from == "alice" && text == "hello everyone" && r == "general"
    ));
}

#[test]
fn test_room_isolation() {
    let mut server = Server::new(Config::default());
    let mut alice = Conn::new();
    let mut bob = Conn::new();
    server.login(&mut alice, "alice");
    server.login(&mut bob, "bob");

    let response = server
        .handle(
            &mut bob,
            Message::JoinRoom {
                room_name: "dev".to_string(),
            },
        )
        .reply
        .unwrap();
    assert!(matches!(response, Response::Success { .. }));

    server.handle(
        &mut alice,
        Message::SendRoomMessage {
            text: "hello general".to_string(),
        },
    );
    let response = alice.rx.try_recv().unwrap();
    assert!(matches!(response, Response::IncomingMessage { from, .. } if from == "alice"));
    assert!(
        bob.rx.try_recv().is_err(),
        "bob should not receive message from different room"
    );
}

#[test]
fn test_join_room() {
    let mut server = Server::new(Config::default());
    let mut alice = Conn::new();
    let mut bob = Conn::new();
    server.login(&mut alice, "alice");
    server.login(&mut bob, "bob");

    let response = server
        .handle(
            &mut alice,
            Message::JoinRoom {
                room_name: "dev".to_string(),
            },
        )
        .reply
        .unwrap();
    assert!(matches!(response, Response::Success { message } if message.contains("dev")));
    let response = server
        .handle(
            &mut bob,
            Message::JoinRoom {
                room_name: "dev".to_string(),
            },
        )
        .reply
        .unwrap();
    assert!(matches!(response, Response::Success { .. }));

    server.handle(
        &mut alice,
        Message::SendRoomMessage {
            text: "hello dev team".to_string(),
        },
    );
    let response = alice.rx.try_recv().unwrap();
    assert!(matches!(
        response,
        Response::IncomingMessage { room: Some(r), .. } if r == "dev"
    ));
    let response = bob.rx.try_recv().unwrap();
    assert!(matches!(
        response,
        Response::IncomingMessage { from, text, room: Some(r) }
        if from == "alice" && text == "hello dev team" && r == "dev"
    ));
}

#[test]
fn test_private_message() {
    let mut server = Server::new(Config::default());
    let mut alice = Conn::new();
    let mut bob = Conn::new();
    let mut charlie = Conn::new();
    server.login(&mut alice, "alice");
    server.login(&mut bob, "bob");
    server.login(&mut charlie, "charlie");

    let step = server.handle(
        &mut alice,
        Message::SendPrivateMessage {
            to: "bob".to_string(),
            text: "secret message".to_string(),
        },
    );
    assert_eq!(step.offered_to, vec!["bob".to_string()]);
    let response = bob.rx.try_recv().unwrap();
    assert!(matches!(
        response,
        Response::IncomingMessage { from, text, room: None }
        if from == "alice" && text == "secret message"
    ));
    assert!(
        charlie.rx.try_recv().is_err(),
        "charlie should not receive private message"
    );
}

#[test]
fn test_private_message_unknown_user() {
    let mut server = Server::new(Config::default());
    let mut alice = Conn::new();
    server.login(&mut alice, "alice");
    let response = server
        .handle(
            &mut alice,
            Message::SendPrivateMessage {
                to: "ghost".to_string(),
                text: "hello?".to_string(),
            },
        )
        .reply
        .unwrap();
    assert!(matches!(
        response,
        Response::Error { message } if message.contains("not found")
    ));
}

#[test]
fn test_list_users() {
    let mut server = Server::new(Config::default());
    let mut alice = Conn::new();
    let mut bob = Conn::new();
    let mut charlie = Conn::new();
    server.login(&mut alice, "alice");
    server.login(&mut bob, "bob");
    server.login(&mut charlie, "charlie");

    let users = server.users(&mut alice);
    assert_eq!(users.len(), 3);
    assert!(users.contains(&"alice".to_string()));
    assert!(users.contains(&"bob".to_string()));
    assert!(users.contains(&"charlie".to_string()));
}

#[test]
fn test_message_before_connect() {
    let mut server = Server::new(Config::default());
    let mut client = Conn::new();
    let step = server.handle(
        &mut client,
        Message::SendRoomMessage {
            text: "hello".to_string(),
        },
    );
    assert!(matches!(
        step.reply,
        Some(Response::Error { message }) if message.contains("must connect")
    ));
    assert_eq!(step.outcome, Outcome::NotRegistered);
    for msg in [
        Message::ListUsers,
        Message::JoinRoom {
            room_name: "x".to_string(),
        },
        Message::SendPrivateMessage {
            to: "x".to_string(),
            text: "y".to_string(),
        },
    ] {
        let step = server.handle(&mut client, msg);
        assert_eq!(step.outcome, Outcome::NotRegistered);
    }
}

#[test]
fn test_graceful_disconnect() {
    let mut server = Server::new(Config::default());
    let mut client = Conn::new();
    server.login(&mut client, "alice");
    let step = server.handle(&mut client, Message::Disconnect);
    assert!(matches!(
        step.reply,
        Some(Response::Success { message }) if message.contains("goodbye")
    ));
    assert!(!step.reply_required);
    assert!(client.username.is_none());
    assert!(!server.clients.contains(&"alice".to_string()));
}

#[test]
fn test_client_drop() {
    let mut server = Server::new(Config::default());
    let mut alice = Conn::new();
    let mut bob = Conn::new();
    server.login(&mut alice, "alice");
    server.login(&mut bob, "bob");
    // bob's connection ends without a Disconnect
    end_session(bob.username.take(), &mut server.clients);

    let users = server.users(&mut alice);
    assert_eq!(users.len(), 1);
    assert!(users.contains(&"alice".to_string()));
    assert!(!users.contains(&"bob".to_string()));
}

#[test]
fn test_shutdown_notifies_clients() {
    let mut server = Server::new(Config::default());
    let mut alice = Conn::new();
    let mut bob = Conn::new();
    server.login(&mut alice, "alice");
    server.login(&mut bob, "bob");

    // shutdown ends every session: each connection leaves the registry and
    // its writer side goes away
    for conn in [&mut alice, &mut bob] {
        end_session(conn.username.take(), &mut server.clients);
        let (closed_tx, _) = channel::<Response>(1);
        drop(std::mem::replace(&mut conn.tx, closed_tx));
    }

    // both clients see their connection closed
    assert!(matches!(
        alice.rx.try_recv(),
        Err(tokio::sync::mpsc::error::TryRecvError::Disconnected)
    ));
    assert!(matches!(
        bob.rx.try_recv(),
        Err(tokio::sync::mpsc::error::TryRecvError::Disconnected)
    ));
    assert!(!server.clients.contains(&"alice".to_string()));
    assert!(!server.clients.contains(&"bob".to_string()));
}

#[test]
fn test_connect_already_authenticated() {
    let mut server = Server::new(Config::default());
    let mut client = Conn::new();
    let response = server.login(&mut client, "alice");
    assert!(matches!(response, Response::Success { .. }));
    let response = server.login(&mut client, "bob");
    assert!(matches!(response, Response::Error { message } if message.contains("already")));
    assert!(!server.clients.contains(&"bob".to_string()));
}

#[test]
fn test_connect_duplicate_username() {
    let mut server = Server::new(Config::default());
    let mut alice1 = Conn::new();
    let mut alice2 = Conn::new();
    let response = server.login(&mut alice1, "alice");
    assert!(matches!(response, Response::Success { .. }));
    let response = server.login(&mut alice2, "alice");
    assert!(matches!(response, Response::Error { message } if message.contains("taken")));
    assert!(alice2.username.is_none());
}

#[test]
fn test_connection_limit_enforced() {
    let config = Config {
        maxconnections: 2,
        ..Config::default()
    };
    assert!(admit_connection(0, config.maxconnections).is_ok());
    assert!(admit_connection(1, config.maxconnections).is_ok());
    match admit_connection(2, config.maxconnections) {
        Err(Response::Error { message }) => {
            assert_eq!(message, "server at capacity, try again later")
        }
        other => panic!("expected a refusal, got {other:?}"),
    }
}

#[test]
fn test_slow_client_disconnected() {
    let config = Config {
        slow_client_threshold: 5,
        rate_limit_per_second: RefillRate::per_second(1000),
        rate_limit_burst: 200,
        ..Config::default()
    };
    let mut server = Server::new(config);
    let mut alice = Conn::new();
    let mut bob = Conn::new();
    server.login(&mut alice, "alice");
    let bob_login_response = server.login(&mut bob, "bob");
    assert!(
        matches!(bob_login_response, Response::Success { .. }),
        "bob login failed: {:?}",
        bob_login_response
    );
    let users = server.users(&mut alice);
    assert!(
        users.contains(&"bob".to_string()),
        "bob should be in user list initially: {:?}",
        users
    );
    server.handle(
        &mut alice,
        Message::JoinRoom {
            room_name: "alice_room".to_string(),
        },
    );

    // bob never reads: his channel holds 100 messages, then refuses
    let mut not_found = 0;
    let mut disconnected = Vec::new();
    for i in 0..110 {
        let step = server.handle(
            &mut alice,
            Message::SendPrivateMessage {
                to: "bob".to_string(),
                text: format!("message {}", i),
            },
        );
        if let Some(Response::Error { message }) = &step.reply {
            assert!(message.contains("not found"), "unexpected response: {:?}", message);
            not_found += 1;
        }
        disconnected.extend(step.slow_disconnected);
    }
    assert_eq!(disconnected, vec!["bob".to_string()]);
    assert_eq!(not_found, 5);

    let users = server.users(&mut alice);
    assert!(users.contains(&"alice".to_string()), "alice should exist");
    assert!(
        !users.contains(&"bob".to_string()),
        "bob should have been disconnected, users: {:?}",
        users
    );
    // bob's connection keeps its username slot; only the registry forgot him
    assert_eq!(bob.username.as_deref(), Some("bob"));
}

#[test]
fn test_rate_limiting() {
    let config = Config {
        rate_limit_per_second: RefillRate::per_second(10),
        rate_limit_burst: 5,
        ..Config::default()
    };
    let mut server = Server::new(config);
    let mut alice = Conn::new();
    let mut bob = Conn::new();
    server.login(&mut alice, "alice");
    server.login(&mut bob, "bob");
    server.handle(
        &mut alice,
        Message::JoinRoom {
            room_name: "alice_room".to_string(),
        },
    );

    let mut rate_limit_errors = 0;
    for i in 0..10 {
        let step = server.handle(
            &mut alice,
            Message::SendPrivateMessage {
                to: "bob".to_string(),
                text: format!("message {}", i),
            },
        );
        if let Some(Response::Error { message }) = &step.reply {
            if message.contains("rate limited") {
                rate_limit_errors += 1;
            }
        }
    }
    assert!(
        rate_limit_errors > 0,
        "expected rate limit errors, got none"
    );
    assert_eq!(rate_limit_errors, 5);

    // 200 ms later two tokens have been earned
    server.now_ms += 200;
    let step = server.handle(
        &mut alice,
        Message::SendPrivateMessage {
            to: "bob".to_string(),
            text: "after wait".to_string(),
        },
    );
    assert!(step.reply.is_none());
    assert_eq!(step.outcome, Outcome::PrivateMessage);
}

#[test]
fn room_message_counts_refusals_and_removes_slow_members() {
    let config = Config {
        slow_client_threshold: 2,
        rate_limit_burst: 100,
        ..Config::default()
    };
    let mut server = Server::new(config);
    let mut alice = Conn::new();
    let (tx, rx) = channel::<Response>(1);
    let mut bob = Conn {
        username: None,
        tx,
        rx,
    };
    server.login(&mut alice, "alice");
    server.login(&mut bob, "bob");
    let mut steps = Vec::new();
    for _ in 0..3 {
        steps.push(server.handle(
            &mut alice,
            Message::SendRoomMessage {
                text: "hi".to_string(),
            },
        ));
    }
    assert!(steps[0].dropped_for.is_empty());
    assert_eq!(steps[1].dropped_for, vec!["bob".to_string()]);
    assert!(steps[1].slow_disconnected.is_empty());
    assert_eq!(steps[2].dropped_for, vec!["bob".to_string()]);
    assert_eq!(steps[2].slow_disconnected, vec!["bob".to_string()]);
    assert_eq!(server.users(&mut alice), vec!["alice".to_string()]);
    drop(bob);
}

#[test]
fn a_freed_username_can_register_again() {
    let mut server = Server::new(Config::default());
    let mut a = Conn::new();
    let mut b = Conn::new();
    server.login(&mut a, "alice");
    server.handle(&mut a, Message::Disconnect);
    let response = server.login(&mut b, "alice");
    assert!(matches!(response, Response::Success { .. }));
}

#[test]
fn receipts_record_each_offer_and_the_channels_answer() {
    let mut server = Server::new(Config::default());
    let mut alice = Conn::new();
    let mut bob = Conn::new();
    server.login(&mut alice, "alice");
    server.login(&mut bob, "bob");
    let step = server.handle(
        &mut alice,
        Message::SendRoomMessage {
            text: "hi".to_string(),
        },
    );
    assert_eq!(step.offers.len(), step.offered_to.len());
    assert_eq!(step.offered_to.len(), 2);
    assert!(step.offers.iter().all(|o| o.was_accepted()));
    assert!(step.dropped_for.is_empty());

    // a closed channel refuses, and the receipt says so
    drop(bob.rx);
    let step = server.handle(
        &mut alice,
        Message::SendPrivateMessage {
            to: "bob".to_string(),
            text: "anyone there?".to_string(),
        },
    );
    assert_eq!(step.offers.len(), 1);
    assert!(!step.offers[0].was_accepted());
    assert_eq!(step.dropped_for, vec!["bob".to_string()]);
}
