use roster::cmd::{Command, CommandExecution};
use roster::context::Context;
use roster::dialer::{partition, RootDialer, Slot};
use roster::frame::write::write_frame;
use roster::frame::{Cursor, Frame};
use roster::handle::{Action, ConnectionMsg, Handler, RunEnd};
use roster::hash::{crc_hash, HASH_SLOT_MAX};
use roster::storage::{Storage, StorageSegment};
use roster::supervisor::{ConnectionChange, Supervisor};

/// One executor of a server with the given number of parts.
struct Executor {
    ctx: Context,
    storage: StorageSegment,
}

fn executors(parts: u16, supervisor: &mut Supervisor, fd: i32) -> Vec<Executor> {
    let whole = Slot::from(0..HASH_SLOT_MAX);
    let root = RootDialer::new(whole, partition(parts));
    let accepted = supervisor.assign_new_connection(
        "127.0.0.1:50000".to_string(),
        "127.0.0.1:6379".to_string(),
        fd,
    );
    Storage::new(parts, whole)
        .into_parts()
        .into_iter()
        .enumerate()
        .map(|(part, (_, storage))| Executor {
            ctx: Context::new(root.part(part as u16).unwrap(), accepted.clone_record()),
            storage,
        })
        .collect()
}

fn frames_of(bytes: &[u8]) -> Vec<Frame> {
    let mut cursor = Cursor::new(bytes);
    let mut frames = Vec::new();
    while cursor.remaining() > 0 {
        frames.push(Frame::parse(&mut cursor).unwrap());
    }
    frames
}

fn bytes_of(replies: &[Frame]) -> Vec<u8> {
    let mut out = Vec::new();
    for reply in replies {
        write_frame(&mut out, reply);
    }
    out
}

fn text(bytes: &[u8]) -> String {
    String::from_utf8_lossy(bytes).into_owned()
}

/// Sends the bytes on a fresh server with one executor and gives back what
/// the server writes.
fn serve(input: &[u8]) -> (String, RunEnd) {
    let mut supervisor = Supervisor::new(0);
    let mut executor = executors(1, &mut supervisor, 5).remove(0);
    let out =
        Handler::run(frames_of(input), &mut executor.ctx, &mut executor.storage, &mut supervisor);
    (text(&bytes_of(&out.replies)), out.end)
}

#[test]
fn scenario_ping() {
    let (written, end) = serve(b"*1\r\n$4\r\nPING\r\n");
    assert_eq!(written, "+PONG\r\n");
    assert!(matches!(end, RunEnd::Drained));
}

#[test]
fn scenario_ping_with_message() {
    let (written, _) = serve(b"*2\r\n$4\r\nPING\r\n$3\r\nhey\r\n");
    assert_eq!(written, "$3\r\nhey\r\n");
}

#[test]
fn scenario_set_then_get() {
    let (written, end) = serve(
        b"*3\r\n$3\r\nSET\r\n$5\r\nmykey\r\n$5\r\nhello\r\n*2\r\n$3\r\nGET\r\n$5\r\nmykey\r\n",
    );
    assert_eq!(written, "+OK\r\n$5\r\nhello\r\n");
    assert!(matches!(end, RunEnd::Drained));
}

#[test]
fn scenario_get_missing() {
    let (written, _) = serve(b"*2\r\n$3\r\nGET\r\n$3\r\nnop\r\n");
    assert_eq!(written, "$-1\r\n");
}

#[test]
fn scenario_client_id_grows_with_each_connection() {
    let mut supervisor = Supervisor::new(0);
    let mut first = executors(1, &mut supervisor, 5).remove(0);
    let out = Handler::run(
        frames_of(b"*2\r\n$6\r\nCLIENT\r\n$2\r\nID\r\n*2\r\n$6\r\nCLIENT\r\n$2\r\nID\r\n"),
        &mut first.ctx,
        &mut first.storage,
        &mut supervisor,
    );
    assert_eq!(text(&bytes_of(&out.replies)), ":0\r\n:0\r\n");
    let mut second = executors(1, &mut supervisor, 6).remove(0);
    let out = Handler::run(
        frames_of(b"*2\r\n$6\r\nCLIENT\r\n$2\r\nID\r\n"),
        &mut second.ctx,
        &mut second.storage,
        &mut supervisor,
    );
    assert_eq!(text(&bytes_of(&out.replies)), ":1\r\n");
}

#[test]
fn scenario_unknown_command_keeps_the_connection() {
    let (written, end) = serve(b"*1\r\n$3\r\nFOO\r\n*1\r\n$4\r\nPING\r\n");
    assert_eq!(written, "-ERR unknown command 'foo'\r\n+PONG\r\n");
    assert!(matches!(end, RunEnd::Drained));
}

#[test]
fn scenario_migration() {
    let key: &[u8] = b"foo";
    assert!(crc_hash(key) >= 8192);
    let mut supervisor = Supervisor::new(0);
    let mut all = executors(2, &mut supervisor, 5);
    let mut e1 = all.pop().unwrap();
    let mut e0 = all.pop().unwrap();
    // The connection is accepted on the first executor.
    let input =
        b"*1\r\n$4\r\nPING\r\n*3\r\n$3\r\nSET\r\n$3\r\nfoo\r\n$3\r\nbar\r\n*2\r\n$3\r\nGET\r\n$3\r\nfoo\r\n";
    let out = Handler::run(frames_of(input), &mut e0.ctx, &mut e0.storage, &mut supervisor);
    assert_eq!(text(&bytes_of(&out.replies)), "+PONG\r\n");
    let (target, command, rest_frame) = match out.end {
        RunEnd::Migrate { target, command, rest_frame } => (target, command, rest_frame),
        other => panic!("no migration: {:?}", other),
    };
    assert_eq!(target, 1);
    assert!(matches!(command, Command::SetKey(_)));
    assert_eq!(rest_frame, frames_of(b"*2\r\n$3\r\nGET\r\n$3\r\nfoo\r\n"));
    // The second executor resumes it.
    let msg = ConnectionMsg::new(5, command, rest_frame);
    assert_eq!(msg.fd, 5);
    let out = Handler::continue_run(msg, &mut e1.ctx, &mut e1.storage, &mut supervisor);
    assert_eq!(text(&bytes_of(&out.replies)), "+OK\r\n$3\r\nbar\r\n");
    assert!(matches!(out.end, RunEnd::Drained));
    // The value lives on the second executor only.
    assert_eq!(e1.storage.get_async("foo".to_string(), 0), Some(b"bar".to_vec()));
    assert_eq!(e0.storage.get_async("foo".to_string(), 0), None);
}

#[test]
fn a_connection_can_move_back_and_forth() {
    assert!(crc_hash(b"hello") < 8192);
    let mut supervisor = Supervisor::new(0);
    let mut all = executors(2, &mut supervisor, 5);
    let mut e1 = all.pop().unwrap();
    let mut e0 = all.pop().unwrap();
    let input = b"*3\r\n$3\r\nSET\r\n$3\r\nfoo\r\n$1\r\n1\r\n*3\r\n$3\r\nSET\r\n$5\r\nhello\r\n$1\r\n2\r\n*1\r\n$4\r\nPING\r\n";
    let out = Handler::run(frames_of(input), &mut e0.ctx, &mut e0.storage, &mut supervisor);
    assert!(out.replies.is_empty());
    let msg = match out.end {
        RunEnd::Migrate { target: 1, command, rest_frame } => {
            ConnectionMsg::new(5, command, rest_frame)
        }
        other => panic!("{:?}", other),
    };
    let out = Handler::continue_run(msg, &mut e1.ctx, &mut e1.storage, &mut supervisor);
    assert_eq!(text(&bytes_of(&out.replies)), "+OK\r\n");
    let msg = match out.end {
        RunEnd::Migrate { target: 0, command, rest_frame } => {
            assert_eq!(rest_frame.len(), 1);
            ConnectionMsg::new(5, command, rest_frame)
        }
        other => panic!("{:?}", other),
    };
    let out = Handler::continue_run(msg, &mut e0.ctx, &mut e0.storage, &mut supervisor);
    assert_eq!(text(&bytes_of(&out.replies)), "+OK\r\n+PONG\r\n");
    assert!(matches!(out.end, RunEnd::Drained));
}

#[test]
fn answers_come_in_the_order_of_the_frames() {
    let (written, _) = serve(
        b"*2\r\n$4\r\nPING\r\n$1\r\na\r\n*1\r\n$4\r\nPING\r\n*2\r\n$4\r\nPING\r\n$1\r\nb\r\n*2\r\n$3\r\nGET\r\n$1\r\nk\r\n*2\r\n$4\r\nPING\r\n$1\r\nc\r\n",
    );
    assert_eq!(written, "$1\r\na\r\n+PONG\r\n$1\r\nb\r\n$-1\r\n$1\r\nc\r\n");
}

#[test]
fn protocol_errors_close_the_connection() {
    let (written, end) = serve(b"*1\r\n$4\r\nPING\r\n*2\r\n$5\r\nHELLO\r\n$1\r\nx\r\n*1\r\n$4\r\nPING\r\n");
    assert_eq!(written, "+PONG\r\n");
    match end {
        RunEnd::Closed(frame) => assert_eq!(
            frame,
            Frame::Error(
                b"ERR protocol error; expected end of frame, but there was more".to_vec()
            )
        ),
        other => panic!("{:?}", other),
    }
    let (_, end) = serve(b"*1\r\n$3\r\nGET\r\n");
    match end {
        RunEnd::Closed(frame) => assert_eq!(
            frame,
            Frame::Error(b"ERR protocol error; unexpected end of stream".to_vec())
        ),
        other => panic!("{:?}", other),
    }
    let (_, end) = serve(b"+PING\r\n");
    match end {
        RunEnd::Closed(frame) => {
            assert_eq!(frame, Frame::Error(b"ERR protocol error; expected array".to_vec()))
        }
        other => panic!("{:?}", other),
    }
}

#[test]
fn application_errors_keep_the_connection() {
    let (written, end) = serve(
        b"*4\r\n$3\r\nSET\r\n$1\r\nk\r\n$1\r\nv\r\n$2\r\nNX\r\n*1\r\n$4\r\nPING\r\n",
    );
    assert_eq!(
        written,
        "-ERR currently `SET` only supports the expiration option\r\n+PONG\r\n"
    );
    assert!(matches!(end, RunEnd::Drained));
}

#[test]
fn hello_reports_the_server_and_the_connection() {
    let mut supervisor = Supervisor::new(3);
    let mut executor = executors(1, &mut supervisor, 5).remove(0);
    let out = Handler::run(
        frames_of(b"*1\r\n$5\r\nHELLO\r\n"),
        &mut executor.ctx,
        &mut executor.storage,
        &mut supervisor,
    );
    assert_eq!(
        text(&bytes_of(&out.replies)),
        "%7\r\n+server\r\n+roster\r\n+version\r\n+0.1.0\r\n+proto\r\n:3\r\n+id\r\n:3\r\n+mode\r\n+standalone\r\n+role\r\n+undefined\r\n+modules\r\n*0\r\n"
    );
}

#[test]
fn client_commands_answer_from_the_registry() {
    let mut supervisor = Supervisor::new(0);
    let mut executor = executors(1, &mut supervisor, 5).remove(0);
    let input = b"*2\r\n$6\r\nCLIENT\r\n$7\r\nGETNAME\r\n*2\r\n$6\r\nCLIENT\r\n$4\r\nINFO\r\n*3\r\n$6\r\nCLIENT\r\n$7\r\nSETNAME\r\n$7\r\nnewname\r\n*2\r\n$6\r\nCLIENT\r\n$7\r\nGETNAME\r\n*2\r\n$6\r\nCLIENT\r\n$4\r\nLIST\r\n*4\r\n$6\r\nCLIENT\r\n$7\r\nSETINFO\r\n$8\r\nLIB-NAME\r\n$6\r\nroster\r\n*2\r\n$3\r\nACL\r\n$3\r\nCAT\r\n";
    let out =
        Handler::run(frames_of(input), &mut executor.ctx, &mut executor.storage, &mut supervisor);
    assert_eq!(
        text(&bytes_of(&out.replies)),
        "$-1\r\n+id=0 addr=127.0.0.1:50000 laddr=127.0.0.1:6379 fd=5 name=\r\n+OK\r\n$7\r\nnewname\r\n*1\r\n+id=0 addr=127.0.0.1:50000 laddr=127.0.0.1:6379 fd=5 name=newname\r\n+OK\r\n+OK\r\n"
    );
}

#[test]
fn client_list_shows_open_connections_only() {
    let mut supervisor = Supervisor::new(0);
    let mut executor = executors(1, &mut supervisor, 5).remove(0);
    let _other = executors(1, &mut supervisor, 6);
    let _gone = executors(1, &mut supervisor, 7);
    assert!(supervisor.change_connection(2, ConnectionChange::Stop));
    let out = Handler::run(
        frames_of(b"*2\r\n$6\r\nCLIENT\r\n$4\r\nLIST\r\n"),
        &mut executor.ctx,
        &mut executor.storage,
        &mut supervisor,
    );
    assert_eq!(out.replies.len(), 1);
    let mut lines = match &out.replies[0] {
        Frame::Array(items) => items
            .iter()
            .map(|item| match item {
                Frame::Simple(line) => text(line),
                other => panic!("{:?}", other),
            })
            .collect::<Vec<_>>(),
        other => panic!("{:?}", other),
    };
    lines.sort();
    assert_eq!(
        lines,
        vec![
            "id=0 addr=127.0.0.1:50000 laddr=127.0.0.1:6379 fd=5 name=",
            "id=1 addr=127.0.0.1:50000 laddr=127.0.0.1:6379 fd=6 name=",
        ]
    );
}

#[test]
fn client_help_lists_the_subcommands() {
    let (written, _) = serve(b"*2\r\n$6\r\nCLIENT\r\n$4\r\nHELP\r\n");
    let frames = frames_of(written.as_bytes());
    let lines: Vec<String> = match &frames[0] {
        Frame::Array(items) => items
            .iter()
            .map(|item| match item {
                Frame::Simple(line) => text(line),
                other => panic!("{:?}", other),
            })
            .collect(),
        other => panic!("{:?}", other),
    };
    assert_eq!(
        lines.join("\n"),
        "CLIENT <subcommand> [<arg> [value] [opt] ...]. subcommands are:
ID
    Return the ID of the current connection.
INFO
    Return information about the current client connection.
LIST [options ...]
    Return information about client connections. Options:
    * TYPE (NORMAL|MASTER|REPLICA|PUBSUB)
      Return clients of specified type.
SETNAME <name>
    Assign the name <name> to the current connection.
SETINFO <option> <value>
    Set client meta attr. Options are:
    * LIB-NAME: the client lib name.
    * LIB-VER: the client lib version.
HELP
    Print this help.
    "
        .trim_end()
    );
}

#[test]
fn step_tells_what_to_do_with_one_frame() {
    let mut supervisor = Supervisor::new(0);
    let mut all = executors(2, &mut supervisor, 5);
    let _e1 = all.pop().unwrap();
    let mut e0 = all.pop().unwrap();
    let ping = frames_of(b"*1\r\n$4\r\nPING\r\n").remove(0);
    match Handler::step(ping, &mut e0.ctx, &mut e0.storage, &mut supervisor) {
        Action::Reply(frame) => assert_eq!(frame, Frame::Simple(b"PONG".to_vec())),
        other => panic!("{:?}", other),
    }
    let get = frames_of(b"*2\r\n$3\r\nGET\r\n$3\r\nfoo\r\n").remove(0);
    match Handler::step_at(get, 0, &e0.ctx, &mut e0.storage, &mut supervisor) {
        Action::Migrate { target, command } => {
            assert_eq!(target, 1);
            assert_eq!(command.hash_key(), Some(12182));
        }
        other => panic!("{:?}", other),
    }
    match Handler::step_at(Frame::Null, 0, &e0.ctx, &mut e0.storage, &mut supervisor) {
        Action::Close(frame) => {
            assert_eq!(frame, Frame::Error(b"ERR protocol error; expected array".to_vec()))
        }
        other => panic!("{:?}", other),
    }
}

#[test]
fn set_with_expiry_is_gone_after_its_time() {
    let mut supervisor = Supervisor::new(0);
    let mut executor = executors(1, &mut supervisor, 5).remove(0);
    let accepted = executor.ctx.connection().clone_record();
    let set = Command::from_frame(
        frames_of(b"*5\r\n$3\r\nSET\r\n$1\r\nk\r\n$1\r\nv\r\n$2\r\nEX\r\n$2\r\n10\r\n").remove(0),
    )
    .unwrap();
    let now = 1u64 << 40;
    let reply = set.apply_at(now, &accepted, &mut executor.storage, &mut supervisor);
    assert_eq!(reply, Frame::Simple(b"OK".to_vec()));
    let ten_seconds = 10u64 << 32;
    let get = |storage: &mut StorageSegment, supervisor: &mut Supervisor, at: u64| {
        Command::from_frame(frames_of(b"*2\r\n$3\r\nGET\r\n$1\r\nk\r\n").remove(0))
            .unwrap()
            .apply_at(at, &accepted, storage, supervisor)
    };
    assert_eq!(
        get(&mut executor.storage, &mut supervisor, now + ten_seconds - 1),
        Frame::Bulk(b"v".to_vec())
    );
    assert_eq!(get(&mut executor.storage, &mut supervisor, now + ten_seconds), Frame::Null);
    assert_eq!(get(&mut executor.storage, &mut supervisor, now), Frame::Null);
}

#[test]
fn apply_reads_the_clock_of_the_context() {
    let mut supervisor = Supervisor::new(0);
    let mut executor = executors(1, &mut supervisor, 5).remove(0);
    let set = Command::from_frame(
        frames_of(b"*5\r\n$3\r\nSET\r\n$1\r\nk\r\n$1\r\nv\r\n$2\r\nPX\r\n$7\r\n3600000\r\n")
            .remove(0),
    )
    .unwrap();
    let reply = set.apply(&mut executor.ctx, &mut executor.storage, &mut supervisor);
    assert_eq!(reply, Frame::Simple(b"OK".to_vec()));
    let first = executor.ctx.now();
    let second = executor.ctx.now();
    assert!(first > 0);
    assert!(second >= first);
    let get = Command::from_frame(frames_of(b"*2\r\n$3\r\nGET\r\n$1\r\nk\r\n").remove(0)).unwrap();
    let reply = get.apply(&mut executor.ctx, &mut executor.storage, &mut supervisor);
    assert_eq!(reply, Frame::Bulk(b"v".to_vec()));
}

/// The lines of an array of simple strings.
fn lines_of(written: &str) -> Vec<String> {
    match frames_of(written.as_bytes()).remove(0) {
        Frame::Array(items) => items
            .iter()
            .map(|item| match item {
                Frame::Simple(line) => text(line),
                other => panic!("{:?}", other),
            })
            .collect(),
        other => panic!("{:?}", other),
    }
}

/// Tells whether a line reads `id=0 addr=... laddr=... fd=... name=<name>`.
fn is_line_of_first_connection(line: &str, name: &str) -> bool {
    let fields: Vec<&str> = line.split(' ').collect();
    fields.len() == 5
        && fields[0] == "id=0"
        && fields[1].starts_with("addr=")
        && fields[2].starts_with("laddr=")
        && fields[3].starts_with("fd=")
        && fields[4] == format!("name={}", name)
}

#[test]
fn test_start_simple_server_ping() {
    let (written, _) = serve(b"*1\r\n$4\r\nPING\r\n");
    assert_eq!(frames_of(written.as_bytes()), vec![Frame::Simple(b"PONG".to_vec())]);
}

#[test]
fn test_start_simple_server_ping_msg() {
    let (written, _) = serve(b"*2\r\n$4\r\nPING\r\n$3\r\nmsg\r\n");
    assert_eq!(frames_of(written.as_bytes()), vec![Frame::Bulk(b"msg".to_vec())]);
}

#[test]
fn test_simple_client_setinfo() {
    let (written, _) =
        serve(b"*4\r\n$6\r\nCLIENT\r\n$7\r\nSETINFO\r\n$8\r\nLIB-NAME\r\n$6\r\nroster\r\n");
    assert_eq!(frames_of(written.as_bytes()), vec![Frame::Simple(b"OK".to_vec())]);
}

#[test]
fn test_simple_client_help() {
    let (written, _) = serve(b"*2\r\n$6\r\nCLIENT\r\n$4\r\nHELP\r\n");
    let lines = lines_of(&written);
    assert_eq!(lines.len(), 17);
    assert_eq!(
        lines[0],
        "CLIENT <subcommand> [<arg> [value] [opt] ...]. subcommands are:"
    );
    assert_eq!(lines[1], "ID");
    assert_eq!(lines[16], "    Print this help.");
}

#[test]
fn client_id() {
    let id = b"*2\r\n$6\r\nCLIENT\r\n$2\r\nID\r\n";
    let mut supervisor = Supervisor::new(0);
    let mut connection = executors(1, &mut supervisor, 5).remove(0);
    let mut ask = |connection: &mut Executor, supervisor: &mut Supervisor| {
        let out =
            Handler::run(frames_of(id), &mut connection.ctx, &mut connection.storage, supervisor);
        out.replies
    };
    assert_eq!(ask(&mut connection, &mut supervisor), vec![Frame::Integer(0)]);
    assert_eq!(ask(&mut connection, &mut supervisor), vec![Frame::Integer(0)]);
    drop(connection);
    let mut connection = executors(1, &mut supervisor, 6).remove(0);
    assert_eq!(ask(&mut connection, &mut supervisor), vec![Frame::Integer(1)]);
}

#[test]
fn client_info() {
    let (written, _) = serve(b"*2\r\n$6\r\nCLIENT\r\n$4\r\nINFO\r\n");
    match frames_of(written.as_bytes()).remove(0) {
        Frame::Simple(line) => assert!(is_line_of_first_connection(&text(&line), "")),
        other => panic!("{:?}", other),
    }
}

#[test]
fn client_list() {
    let (written, _) = serve(b"*2\r\n$6\r\nCLIENT\r\n$4\r\nLIST\r\n");
    let lines = lines_of(&written);
    assert_eq!(lines.len(), 1);
    assert!(is_line_of_first_connection(&lines[0], ""));
}

#[test]
fn client_setname() {
    let mut supervisor = Supervisor::new(0);
    let mut connection = executors(1, &mut supervisor, 5).remove(0);
    let mut send = |input: &[u8]| {
        let out = Handler::run(
            frames_of(input),
            &mut connection.ctx,
            &mut connection.storage,
            &mut supervisor,
        );
        text(&bytes_of(&out.replies))
    };
    let lines = lines_of(&send(b"*2\r\n$6\r\nCLIENT\r\n$4\r\nLIST\r\n"));
    assert_eq!(lines.len(), 1);
    assert!(is_line_of_first_connection(&lines[0], ""));
    assert_eq!(send(b"*3\r\n$6\r\nCLIENT\r\n$7\r\nSETNAME\r\n$7\r\nnewname\r\n"), "+OK\r\n");
    let lines = lines_of(&send(b"*2\r\n$6\r\nCLIENT\r\n$4\r\nLIST\r\n"));
    assert_eq!(lines.len(), 1);
    assert!(is_line_of_first_connection(&lines[0], "newname"));
}

#[test]
fn test_simple_client_set_key() {
    let mut supervisor = Supervisor::new(0);
    let mut connection = executors(1, &mut supervisor, 5).remove(0);
    let mut send = |input: &[u8]| {
        let out = Handler::run(
            frames_of(input),
            &mut connection.ctx,
            &mut connection.storage,
            &mut supervisor,
        );
        out.replies
    };
    assert_eq!(
        send(b"*3\r\n$3\r\nSET\r\n$5\r\nmykey\r\n$5\r\nhello\r\n"),
        vec![Frame::Simple(b"OK".to_vec())]
    );
    assert_eq!(
        send(b"*2\r\n$3\r\nGET\r\n$5\r\nmykey\r\n"),
        vec![Frame::Bulk(b"hello".to_vec())]
    );
}
