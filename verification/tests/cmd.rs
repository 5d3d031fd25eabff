use roster::cmd::acl::Acl;
use roster::cmd::client::list::{ClientFilter, ClientList, ClientType};
use roster::cmd::client::Client;
use roster::cmd::parse::{CommandError, Parse, ParseError};
use roster::cmd::set::{Expiry, SetKey};
use roster::cmd::{Command, CommandExecution, SubcommandRegistry};
use roster::frame::{Cursor, Frame};
use roster::hash::crc_hash;

/// The bytes of a command as a client sends it: an array of bulk strings.
fn request(parts: &[&[u8]]) -> Vec<u8> {
    let mut bytes = format!("*{}\r\n", parts.len()).into_bytes();
    for part in parts {
        bytes.extend_from_slice(format!("${}\r\n", part.len()).as_bytes());
        bytes.extend_from_slice(part);
        bytes.extend_from_slice(b"\r\n");
    }
    bytes
}

fn parse_bytes(bytes: &[u8]) -> Result<Command, CommandError> {
    let mut cursor = Cursor::new(bytes);
    let frame = Frame::parse(&mut cursor).unwrap();
    Command::from_frame(frame)
}

fn parse_cmd(parts: &[&[u8]]) -> Result<Command, CommandError> {
    parse_bytes(&request(parts))
}

fn too_much() -> CommandError {
    CommandError::Protocol(ParseError::Other(
        "protocol error; expected end of frame, but there was more".to_string(),
    ))
}

fn expect_list(command: Command, kind: ClientType, ids: Vec<u64>) {
    match command {
        Command::Client(Client::List(list)) => {
            assert_eq!(list.kind(), kind);
            assert_eq!(list.ids(), &Some(ids));
        }
        other => panic!("not a client list: {:?}", other),
    }
}

#[test]
fn get_name_ensure_parsing() {
    let client_cmd = parse_cmd(&[b"CLIENT", b"GETNAME"]).unwrap();
    assert!(matches!(client_cmd, Command::Client(Client::GetName(_))));
    assert_eq!(format!("{:?}", client_cmd), "Client(GetName(ClientGetName))");
}

#[test]
fn get_name_ensure_parsing_too_much() {
    let client_cmd = parse_cmd(&[b"CLIENT", b"GETNAME", b"BLBL"]);
    assert!(client_cmd.is_err());
    let client_cmd = client_cmd.unwrap_err();
    assert_eq!(client_cmd, too_much());
}

#[test]
fn id_ensure_parsing() {
    let client_cmd = parse_cmd(&[b"CLIENT", b"ID"]).unwrap();
    assert!(matches!(client_cmd, Command::Client(Client::Id(_))));
    assert_eq!(format!("{:?}", client_cmd), "Client(Id(ClientID))");
}

#[test]
fn ensure_parsing_base() {
    let client_cmd = parse_cmd(&[b"CLIENT", b"LIST"]).unwrap();
    expect_list(client_cmd, ClientType::Normal, vec![]);
}

#[test]
fn ensure_parsing_normal() {
    let client_cmd = parse_cmd(&[b"CLIENT", b"LIST", b"TYPE", b"NORMAL"]).unwrap();
    expect_list(client_cmd, ClientType::Normal, vec![]);
}

#[test]
fn ensure_parsing_master() {
    let client_cmd = parse_cmd(&[b"CLIENT", b"LIST", b"TYPE", b"MASTER"]).unwrap();
    expect_list(client_cmd, ClientType::Master, vec![]);
}

#[test]
fn ensure_parsing_replica() {
    let client_cmd = parse_cmd(&[b"CLIENT", b"LIST", b"TYPE", b"REPLICA"]).unwrap();
    expect_list(client_cmd, ClientType::Replica, vec![]);
}

#[test]
fn ensure_parsing_pubsub() {
    let client_cmd = parse_cmd(&[b"CLIENT", b"LIST", b"TYPE", b"PUBSUB"]).unwrap();
    expect_list(client_cmd, ClientType::Pubsub, vec![]);
}

#[test]
fn ensure_parsing_fail() {
    let client_cmd = parse_cmd(&[b"CLIENT", b"LIST", b"TYPE", b"FAIL"]);
    assert!(client_cmd.is_err());
    assert_eq!(
        client_cmd.unwrap_err(),
        CommandError::Application(
            "Unknown client type, should be either normal / replica / master / pubsub."
                .to_string()
        )
    );
}

#[test]
fn ensure_parsing_normal_id() {
    let client_cmd =
        parse_bytes(b"*7\r\n$6\r\nCLIENT\r\n$4\r\nLIST\r\n$4\r\nTYPE\r\n$6\r\nNORMAL\r\n$2\r\nID\r\n:1\r\n:2\r\n")
            .unwrap();
    expect_list(client_cmd, ClientType::Normal, vec![1, 2]);
}

#[test]
fn hello_ensure_parsing() {
    let client_cmd = parse_cmd(&[b"HELLO"]).unwrap();
    assert!(matches!(client_cmd, Command::Hello(_)));
    assert_eq!(format!("{:?}", client_cmd), "Hello(Hello)");
}

#[test]
fn hello_ensure_parsing_too_much() {
    let client_cmd = parse_cmd(&[b"HELLO", b"BLBL"]);
    assert!(client_cmd.is_err());
    let client_cmd = client_cmd.unwrap_err();
    assert_eq!(client_cmd, too_much());
}

#[test]
fn command_names_match_in_any_case() {
    assert!(matches!(parse_cmd(&[b"ping"]), Ok(Command::Ping(_))));
    assert!(matches!(parse_cmd(&[b"PiNg"]), Ok(Command::Ping(_))));
    assert!(matches!(parse_cmd(&[b"GET", b"k"]), Ok(Command::Get(_))));
    assert!(matches!(parse_cmd(&[b"get", b"k"]), Ok(Command::Get(_))));
    assert!(matches!(parse_cmd(&[b"Set", b"k", b"v"]), Ok(Command::SetKey(_))));
    assert!(matches!(parse_cmd(&[b"hello"]), Ok(Command::Hello(_))));
    assert!(matches!(parse_cmd(&[b"client", b"id"]), Ok(Command::Client(Client::Id(_)))));
    assert!(matches!(parse_cmd(&[b"acl", b"CAT"]), Ok(Command::Acl(Acl::Cat(_)))));
}

#[test]
fn ping_with_and_without_message() {
    match parse_cmd(&[b"PING"]).unwrap() {
        Command::Ping(ping) => assert_eq!(ping.message(), &None),
        other => panic!("{:?}", other),
    }
    match parse_cmd(&[b"PING", b"hey"]).unwrap() {
        Command::Ping(ping) => assert_eq!(ping.message(), &Some(b"hey".to_vec())),
        other => panic!("{:?}", other),
    }
    assert_eq!(parse_cmd(&[b"PING", b"a", b"b"]).unwrap_err(), too_much());
    assert_eq!(
        parse_bytes(b"*2\r\n$4\r\nPING\r\n:1\r\n").unwrap_err(),
        CommandError::Protocol(ParseError::Other(
            "protocol error; expected simple frame or bulk frame".to_string()
        ))
    );
}

#[test]
fn get_needs_exactly_one_key() {
    match parse_cmd(&[b"GET", b"mykey"]).unwrap() {
        Command::Get(get) => assert_eq!(get.key(), "mykey"),
        other => panic!("{:?}", other),
    }
    assert_eq!(
        parse_cmd(&[b"GET"]).unwrap_err(),
        CommandError::Protocol(ParseError::EndOfStream)
    );
    assert_eq!(parse_cmd(&[b"GET", b"a", b"b"]).unwrap_err(), too_much());
    assert_eq!(
        parse_cmd(&[b"GET", b"\xff\xfe"]).unwrap_err(),
        CommandError::Protocol(ParseError::Other("protocol error; invalid string".to_string()))
    );
}

#[test]
fn set_reads_key_value_and_expiry() {
    match parse_cmd(&[b"SET", b"mykey", b"hello"]).unwrap() {
        Command::SetKey(set) => {
            assert_eq!(set.key(), "mykey");
            assert_eq!(set.value(), b"hello");
            assert_eq!(set.expire(), None);
        }
        other => panic!("{:?}", other),
    }
    match parse_cmd(&[b"SET", b"k", b"v", b"EX", b"10"]).unwrap() {
        Command::SetKey(set) => assert_eq!(set.expire(), Some(Expiry::Seconds(10))),
        other => panic!("{:?}", other),
    }
    match parse_cmd(&[b"SET", b"k", b"v", b"px", b"1500"]).unwrap() {
        Command::SetKey(set) => assert_eq!(set.expire(), Some(Expiry::Milliseconds(1500))),
        other => panic!("{:?}", other),
    }
    match parse_bytes(b"*5\r\n$3\r\nSET\r\n$1\r\nk\r\n$1\r\nv\r\n$2\r\nEX\r\n:7\r\n").unwrap() {
        Command::SetKey(set) => assert_eq!(set.expire(), Some(Expiry::Seconds(7))),
        other => panic!("{:?}", other),
    }
}

#[test]
fn set_refuses_what_it_cannot_read() {
    assert_eq!(
        parse_cmd(&[b"SET", b"k", b"v", b"NX"]).unwrap_err(),
        CommandError::Application(
            "currently `SET` only supports the expiration option".to_string()
        )
    );
    assert_eq!(
        parse_cmd(&[b"SET", b"k"]).unwrap_err(),
        CommandError::Protocol(ParseError::EndOfStream)
    );
    assert_eq!(
        parse_cmd(&[b"SET", b"k", b"v", b"EX"]).unwrap_err(),
        CommandError::Protocol(ParseError::EndOfStream)
    );
    assert_eq!(
        parse_cmd(&[b"SET", b"k", b"v", b"EX", b"soon"]).unwrap_err(),
        CommandError::Protocol(ParseError::Other("protocol error; invalid number".to_string()))
    );
    assert_eq!(parse_cmd(&[b"SET", b"k", b"v", b"EX", b"1", b"x"]).unwrap_err(), too_much());
}

#[test]
fn unknown_commands_keep_their_arguments() {
    match parse_cmd(&[b"FOO"]).unwrap() {
        Command::Unknown(unknown) => assert_eq!(unknown.get_name(), "foo"),
        other => panic!("{:?}", other),
    }
    match parse_cmd(&[b"FOO", b"a", b"b"]).unwrap() {
        Command::Unknown(unknown) => assert_eq!(unknown.get_name(), "foo"),
        other => panic!("{:?}", other),
    }
    match parse_cmd(&[b"CLIENT", b"Nope", b"a"]).unwrap() {
        Command::Unknown(unknown) => assert_eq!(unknown.get_name(), "nope"),
        other => panic!("{:?}", other),
    }
    match parse_cmd(&[b"ACL", b"WHOAMI", b"a"]).unwrap() {
        Command::Unknown(unknown) => assert_eq!(unknown.get_name(), "whoami"),
        other => panic!("{:?}", other),
    }
}

#[test]
fn a_frame_that_is_no_array_is_no_command() {
    let expected =
        CommandError::Protocol(ParseError::Other("protocol error; expected array".to_string()));
    assert_eq!(Command::from_frame(Frame::Null).unwrap_err(), expected);
    assert_eq!(Command::from_frame(Frame::Integer(1)).unwrap_err(), expected);
    assert_eq!(
        Command::from_frame(Frame::Array(vec![])).unwrap_err(),
        CommandError::Protocol(ParseError::EndOfStream)
    );
}

#[test]
fn client_without_subcommand_is_help() {
    assert!(matches!(parse_cmd(&[b"CLIENT"]), Ok(Command::Client(Client::Help))));
    assert!(matches!(parse_cmd(&[b"CLIENT", b"HELP"]), Ok(Command::Client(Client::Help))));
    assert_eq!(parse_cmd(&[b"CLIENT", b"HELP", b"me"]).unwrap_err(), too_much());
    assert_eq!(parse_cmd(&[b"CLIENT", b"ID", b"x"]).unwrap_err(), too_much());
    assert_eq!(parse_cmd(&[b"CLIENT", b"INFO", b"x"]).unwrap_err(), too_much());
}

#[test]
fn client_setname_and_setinfo() {
    match parse_cmd(&[b"CLIENT", b"SETNAME", b"newname"]).unwrap() {
        Command::Client(Client::SetName(set_name)) => assert_eq!(set_name.name(), "newname"),
        other => panic!("{:?}", other),
    }
    assert_eq!(
        parse_cmd(&[b"CLIENT", b"SETNAME"]).unwrap_err(),
        CommandError::Protocol(ParseError::EndOfStream)
    );
    match parse_cmd(&[b"CLIENT", b"SETINFO", b"LIB-NAME", b"roster"]).unwrap() {
        Command::Client(Client::SetInfo(info)) => {
            assert_eq!(info.lib_name(), &Some(b"roster".to_vec()));
            assert_eq!(info.lib_version(), &None);
        }
        other => panic!("{:?}", other),
    }
    match parse_cmd(&[b"CLIENT", b"SETINFO", b"LIB-VER", b"1.2"]).unwrap() {
        Command::Client(Client::SetInfo(info)) => {
            assert_eq!(info.lib_name(), &None);
            assert_eq!(info.lib_version(), &Some(b"1.2".to_vec()));
        }
        other => panic!("{:?}", other),
    }
    match parse_cmd(&[b"CLIENT", b"SETINFO", b"other", b"x"]).unwrap() {
        Command::Client(Client::SetInfo(info)) => {
            assert_eq!(info.lib_name(), &None);
            assert_eq!(info.lib_version(), &None);
        }
        other => panic!("{:?}", other),
    }
    match parse_cmd(&[b"CLIENT", b"SETINFO", b"LIB-NAME"]).unwrap() {
        Command::Client(Client::SetInfo(info)) => assert_eq!(info.lib_name(), &None),
        other => panic!("{:?}", other),
    }
    assert_eq!(
        parse_cmd(&[b"CLIENT", b"SETINFO", b"LIB-NAME", b"a", b"b"]).unwrap_err(),
        too_much()
    );
}

#[test]
fn client_list_filters() {
    expect_list(
        parse_cmd(&[b"CLIENT", b"LIST", b"ID", b"3", b"4", b"5"]).unwrap(),
        ClientType::Normal,
        vec![3, 4, 5],
    );
    expect_list(
        parse_cmd(&[b"CLIENT", b"LIST", b"TYPE"]).unwrap(),
        ClientType::Normal,
        vec![],
    );
    expect_list(
        parse_cmd(&[b"CLIENT", b"LIST", b"type", b"master", b"TYPE", b"pubsub"]).unwrap(),
        ClientType::Pubsub,
        vec![],
    );
    assert_eq!(
        parse_cmd(&[b"CLIENT", b"LIST", b"NAME", b"x"]).unwrap_err(),
        CommandError::Application("Unknown filter type 'name'".to_string())
    );
    assert_eq!(
        parse_cmd(&[b"CLIENT", b"LIST", b"ID", b"1", b"TYPE"]).unwrap_err(),
        CommandError::Protocol(ParseError::Other("protocol error; invalid number".to_string()))
    );
    assert_eq!(ClientType::from_name(&"replica".to_string()), Some(ClientType::Replica));
    assert_eq!(ClientType::from_name(&"REPLICA".to_string()), None);
    assert_eq!(ClientFilter::from_name(&"id".to_string()), Some(ClientFilter::Ids));
    assert_eq!(ClientFilter::from_name(&"type".to_string()), Some(ClientFilter::Kind));
    assert_eq!(ClientFilter::from_name(&"x".to_string()), None);
    let list = ClientList::new(ClientType::Master, None);
    assert_eq!(list.kind(), ClientType::Master);
    assert_eq!(list.ids(), &None);
}

#[test]
fn acl_cat_takes_an_optional_category() {
    match parse_cmd(&[b"ACL", b"CAT"]).unwrap() {
        Command::Acl(Acl::Cat(cat)) => assert_eq!(cat.category(), &None),
        other => panic!("{:?}", other),
    }
    match parse_cmd(&[b"ACL", b"CAT", b"dangerous"]).unwrap() {
        Command::Acl(Acl::Cat(cat)) => assert_eq!(cat.category(), &Some("dangerous".to_string())),
        other => panic!("{:?}", other),
    }
    assert_eq!(parse_cmd(&[b"ACL", b"CAT", b"a", b"b"]).unwrap_err(), too_much());
    assert_eq!(
        parse_cmd(&[b"ACL"]).unwrap_err(),
        CommandError::Protocol(ParseError::EndOfStream)
    );
}

#[test]
fn from_name_takes_the_name_in_lower_case() {
    let parse = Parse::new(Frame::Array(vec![])).unwrap();
    assert!(matches!(Command::from_name("ping".to_string(), parse), Ok(Command::Ping(_))));
    let parse = Parse::new(Frame::Array(vec![])).unwrap();
    match Command::from_name("PING".to_string(), parse).unwrap() {
        Command::Unknown(unknown) => assert_eq!(unknown.get_name(), "PING"),
        other => panic!("{:?}", other),
    }
    let parse = Parse::new(Frame::Array(vec![Frame::Bulk(b"id".to_vec())])).unwrap();
    assert!(matches!(Client::from_parse(parse), Ok(Command::Client(Client::Id(_)))));
    let parse = Parse::new(Frame::Array(vec![])).unwrap();
    assert!(matches!(
        Client::from_name("getname".to_string(), parse),
        Ok(Command::Client(Client::GetName(_)))
    ));
    let parse = Parse::new(Frame::Array(vec![Frame::Bulk(b"cat".to_vec())])).unwrap();
    assert!(matches!(Acl::from_parse(parse), Ok(Command::Acl(Acl::Cat(_)))));
    let parse = Parse::new(Frame::Array(vec![])).unwrap();
    assert!(matches!(Acl::from_name("cat".to_string(), parse), Ok(Command::Acl(_))));
    let mut parse = Parse::new(Frame::Array(vec![Frame::Integer(3)])).unwrap();
    assert_eq!(
        SetKey::expiry_from_option(&"PX".to_string(), &mut parse),
        Ok(Expiry::Milliseconds(3))
    );
    let mut parse = Parse::new(Frame::Array(vec![Frame::Integer(3)])).unwrap();
    assert!(SetKey::expiry_from_option(&"px".to_string(), &mut parse).is_err());
}

#[test]
fn parse_reads_elements_one_by_one() {
    let frame = Frame::Array(vec![
        Frame::Simple(b"one".to_vec()),
        Frame::Bulk(b"two".to_vec()),
        Frame::Integer(3),
        Frame::Bulk(b"4".to_vec()),
        Frame::Simple(b"5".to_vec()),
        Frame::Null,
    ]);
    let mut parse = Parse::new(frame).unwrap();
    assert_eq!(parse.remaining_len(), 6);
    assert_eq!(parse.next_string(), Ok("one".to_string()));
    assert_eq!(parse.next_bytes(), Ok(b"two".to_vec()));
    assert_eq!(parse.next_int(), Ok(3));
    assert_eq!(parse.next_int(), Ok(4));
    assert_eq!(parse.next_int(), Ok(5));
    assert!(parse.finish().is_err());
    assert_eq!(
        parse.next_int(),
        Err(ParseError::Other("protocol error; expected int frame".to_string()))
    );
    assert_eq!(parse.finish(), Ok(()));
    assert_eq!(parse.next_string(), Err(ParseError::EndOfStream));
    assert_eq!(parse.next_bytes(), Err(ParseError::EndOfStream));
    assert_eq!(parse.next_int(), Err(ParseError::EndOfStream));
    assert_eq!(parse.remaining_len(), 0);
}

#[test]
fn hash_key_is_the_slot_of_the_key() {
    assert_eq!(parse_cmd(&[b"GET", b"foo"]).unwrap().hash_key(), Some(12182));
    assert_eq!(parse_cmd(&[b"SET", b"foo", b"v"]).unwrap().hash_key(), Some(crc_hash(b"foo")));
    assert_eq!(parse_cmd(&[b"PING"]).unwrap().hash_key(), None);
    assert_eq!(parse_cmd(&[b"HELLO"]).unwrap().hash_key(), None);
    assert_eq!(parse_cmd(&[b"CLIENT", b"ID"]).unwrap().hash_key(), None);
    assert_eq!(parse_cmd(&[b"FOO", b"foo"]).unwrap().hash_key(), None);
    assert_eq!(parse_cmd(&[b"ACL", b"CAT"]).unwrap().hash_key(), None);
}
