use cage::agent::{deliver_all, random_name, reply_value, Agent, Mailbox, NAME_CHARS, NAME_LENGTH};
use cage::message::{CageMessage, Delivery};
use cage::payload::{Message, Payload, StageError};

fn int_of(p: &Payload) -> i64 {
    match p {
        Payload::Int(i) => *i,
        _ => panic!("not an integer payload"),
    }
}

#[test]
fn agent_path_joins_directory_and_name() {
    let (a, _rx) = Agent::open("/parent".to_string(), "kid".to_string());
    assert_eq!(a.path(), "/parentkid");
    assert_eq!(a.name(), "kid");
}

#[test]
fn agent_new_from_mailbox() {
    let (mailbox, _rx) = Mailbox::open();
    let a = Agent::new(mailbox, "/".to_string(), "x".to_string());
    assert_eq!(a.path(), "/x");
    assert_eq!(a.name(), "x");
}

#[test]
fn agents_are_equal_by_path_alone() {
    let (a, _ra) = Agent::open("/a".to_string(), "b".to_string());
    let (b, _rb) = Agent::open("/".to_string(), "ab".to_string());
    let (c, _rc) = Agent::open("/".to_string(), "ac".to_string());
    assert!(a == b);
    assert!(a != c);
    assert!(a.clone() == a);
}

#[test]
fn deliver_to_open_mailbox_arrives() {
    let (a, ra) = Agent::open("/".to_string(), "a".to_string());
    let (b, rb) = Agent::open("/".to_string(), "b".to_string());
    a.deliver(CageMessage::UserMessage(Payload::Int(5), b.clone()));
    match ra.try_recv().unwrap() {
        CageMessage::UserMessage(p, s) => {
            assert_eq!(int_of(&p), 5);
            assert_eq!(s.path(), "/b");
        },
        _ => panic!("expected a user message"),
    }
    assert!(rb.try_recv().is_err());
}

#[test]
fn closed_mailbox_returns_one_undelivered_to_sender() {
    let (a, ra) = Agent::open("/".to_string(), "a".to_string());
    drop(ra);
    let (b, rb) = Agent::open("/".to_string(), "b".to_string());
    a.deliver(CageMessage::UserMessage(Payload::Int(9), b.clone()));
    match rb.try_recv().unwrap() {
        CageMessage::Undelivered(t, p) => {
            assert_eq!(t.path(), "/a");
            assert_eq!(int_of(&p), 9);
        },
        _ => panic!("expected an undelivered notice"),
    }
    assert!(rb.try_recv().is_err());
}

#[test]
fn closed_mailbox_returns_undelivered_for_find() {
    let (a, ra) = Agent::open("/".to_string(), "a".to_string());
    drop(ra);
    let (b, rb) = Agent::open("/".to_string(), "b".to_string());
    a.deliver(CageMessage::Find(vec!["x".to_string()], Payload::Int(3), b.clone()));
    match rb.try_recv().unwrap() {
        CageMessage::Undelivered(t, p) => {
            assert_eq!(t.path(), "/a");
            assert_eq!(int_of(&p), 3);
        },
        _ => panic!("expected an undelivered notice"),
    }
    assert!(rb.try_recv().is_err());
}

#[test]
fn watch_of_stopped_actor_returns_terminated() {
    let (a, ra) = Agent::open("/".to_string(), "a".to_string());
    drop(ra);
    let (b, rb) = Agent::open("/".to_string(), "b".to_string());
    a.deliver(CageMessage::Watch(b.clone()));
    match rb.try_recv().unwrap() {
        CageMessage::Terminated(t) => assert_eq!(t.path(), "/a"),
        _ => panic!("expected a terminated notice"),
    }
    assert!(rb.try_recv().is_err());
}

#[test]
fn other_messages_to_closed_mailbox_are_dropped() {
    let (a, ra) = Agent::open("/".to_string(), "a".to_string());
    drop(ra);
    let (b, rb) = Agent::open("/".to_string(), "b".to_string());
    a.deliver(CageMessage::Kill(b.clone()));
    a.deliver(CageMessage::Unwatch(b.clone()));
    a.deliver(CageMessage::Failure(Payload::Int(1), b.clone()));
    a.deliver(CageMessage::Terminated(b.clone()));
    assert!(rb.try_recv().is_err());
}

#[test]
fn undelivered_to_closed_sender_is_dropped() {
    let (a, ra) = Agent::open("/".to_string(), "a".to_string());
    drop(ra);
    let (b, rb) = Agent::open("/".to_string(), "b".to_string());
    drop(rb);
    a.deliver(CageMessage::UserMessage(Payload::Int(1), b));
}

#[test]
fn compensation_names_the_target() {
    let (a, _ra) = Agent::open("/".to_string(), "a".to_string());
    let (b, _rb) = Agent::open("/".to_string(), "b".to_string());
    match a.compensation(CageMessage::UserMessage(Payload::Int(4), b.clone())) {
        Some(Delivery { to, msg: CageMessage::Undelivered(t, p) }) => {
            assert_eq!(to.path(), "/b");
            assert_eq!(t.path(), "/a");
            assert_eq!(int_of(&p), 4);
        },
        _ => panic!("expected an undelivered notice"),
    }
    assert!(a.compensation(CageMessage::Kill(b)).is_none());
}

#[test]
fn deliver_all_keeps_order() {
    let (a, ra) = Agent::open("/".to_string(), "a".to_string());
    let (b, _rb) = Agent::open("/".to_string(), "b".to_string());
    let ds = vec![
        Delivery { to: a.clone(), msg: CageMessage::UserMessage(Payload::Int(1), b.clone()) },
        Delivery { to: a.clone(), msg: CageMessage::UserMessage(Payload::Int(2), b.clone()) },
    ];
    deliver_all(ds);
    let mut got = Vec::new();
    while let Ok(CageMessage::UserMessage(p, _)) = ra.try_recv() {
        got.push(int_of(&p));
    }
    assert_eq!(got, vec![1, 2]);
}

#[test]
fn request_echo_resolves_to_payload() {
    let (e, re) = Agent::open("/".to_string(), "echo".to_string());
    let reply = e.request(Payload::Int(42));
    match re.try_recv().unwrap() {
        CageMessage::UserMessage(p, s) => {
            assert_eq!(s.path(), "");
            s.deliver(CageMessage::UserMessage(p, e.clone()));
        },
        _ => panic!("expected the request"),
    }
    match reply.wait() {
        Some(Payload::Int(v)) => assert_eq!(v, 42),
        _ => panic!("expected the echoed payload"),
    }
}

#[test]
fn request_failure_resolves_to_error_payload() {
    let (e, re) = Agent::open("/".to_string(), "f".to_string());
    let reply = e.request(Payload::Int(1));
    match re.try_recv().unwrap() {
        CageMessage::UserMessage(_, s) => {
            s.deliver(CageMessage::Failure(Payload::Text("bad".to_string()), e.clone()))
        },
        _ => panic!("expected the request"),
    }
    match reply.wait() {
        Some(Payload::Text(t)) => assert_eq!(t, "bad"),
        _ => panic!("expected the error payload"),
    }
}

#[test]
fn request_to_stopped_actor_resolves_to_none() {
    let (e, re) = Agent::open("/".to_string(), "gone".to_string());
    drop(re);
    let reply = e.request(Payload::Int(1));
    assert!(reply.wait().is_none());
}

#[test]
fn request_without_reply_resolves_to_none_when_dropped() {
    let (e, re) = Agent::open("/".to_string(), "mute".to_string());
    let reply = e.request(Payload::Int(1));
    drop(re.try_recv().unwrap());
    assert!(reply.wait().is_none());
}

#[test]
fn reply_value_of_each_kind() {
    let (a, _ra) = Agent::open("/".to_string(), "a".to_string());
    assert!(matches!(reply_value(Some(CageMessage::UserMessage(Payload::Int(3), a.clone()))), Some(Payload::Int(3))));
    assert!(matches!(reply_value(Some(CageMessage::Failure(Payload::Bool(true), a.clone()))), Some(Payload::Bool(true))));
    assert!(reply_value(Some(CageMessage::Kill(a.clone()))).is_none());
    assert!(reply_value(None).is_none());
}

#[test]
fn random_name_uses_alphabet() {
    let draws: Vec<u64> = (0..NAME_LENGTH as u64).map(|i| i * 7 + 61).collect();
    let name = random_name(&draws);
    assert_eq!(name.chars().count(), NAME_LENGTH);
    let alphabet: Vec<char> = NAME_CHARS.chars().collect();
    for (i, c) in name.chars().enumerate() {
        assert_eq!(c, alphabet[(draws[i] % 62) as usize]);
    }
    assert!(name.starts_with("9gn"));
}

#[test]
fn payload_downcast_checks_the_tag() {
    let p = 17i64.into_payload();
    assert_eq!(i64::from_payload(&p), Some(17));
    assert_eq!(bool::from_payload(&p), None);
    assert!(p.is::<i64>());
    assert!(!p.is::<String>());
    let s = "hi".to_string().into_payload();
    assert_eq!(String::from_payload(&s), Some("hi".to_string()));
    let e = StageError::new("oops").into_payload();
    assert_eq!(StageError::from_payload(&e).map(|x| x.err), Some("oops".to_string()));
}

#[test]
fn payload_copy_is_independent() {
    let p = Payload::Text("abc".to_string());
    let q = p.copy();
    drop(p);
    match q {
        Payload::Text(t) => assert_eq!(t, "abc"),
        _ => panic!("copy changed the tag"),
    }
}
