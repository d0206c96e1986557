//! End-to-end scenarios over the verified core: the socket reads and writes
//! are played by plain byte buffers standing for each physical connection's
//! two directions of traffic.

use mtcp::client::Client;
use mtcp::config::ClientConfig;
use mtcp::config::ServerConfig;
use mtcp::framing::frame_body;
use mtcp::framing::frame_boundary;
use mtcp::protocol::Message;
use mtcp::server::relay_backend_chunk;
use mtcp::server::RouterAction;
use mtcp::server::Server;

fn client_config(pool_size: usize) -> ClientConfig {
    ClientConfig {
        local_listen_ip: String::from("127.0.0.1"),
        local_listen_port: 7000,
        server_ip: String::from("127.0.0.1"),
        server_port: 9000,
        connection_pool_size: pool_size,
        buffer_size: 4096,
        enable_zero_rtt: true,
    }
}

fn server_config() -> ServerConfig {
    ServerConfig {
        listen_ip: String::from("0.0.0.0"),
        listen_port: 9000,
        backend_ip: String::from("127.0.0.1"),
        backend_port: 8080,
        connection_pool_size: 2,
        buffer_size: 4096,
    }
}

/// Runs the server's read loop over one physical connection's bytes,
/// dialing (always successfully) whenever the router asks for it.
fn server_consume(server: &mut Server, wire: &[u8]) {
    let mut offset = 0;
    while let Some(end) = frame_boundary(&wire[offset..]) {
        let body = frame_body(&wire[offset..]).expect("boundary found, body must follow");
        offset += end;
        let msg = Message::decode(&body).expect("the tunnel carries only encoded messages");
        if let RouterAction::OpenBackend { stream_id } = server.handle_message(msg) {
            server.open_stream(stream_id);
        }
    }
    assert_eq!(offset, wire.len(), "the wire must hold whole frames only");
}

/// Runs the client's receive loop over one physical connection's inbound
/// bytes.
fn client_consume(client: &mut Client, wire: &[u8]) {
    let mut offset = 0;
    while let Some(end) = frame_boundary(&wire[offset..]) {
        let body = frame_body(&wire[offset..]).expect("boundary found, body must follow");
        offset += end;
        let msg = Message::decode(&body).expect("the tunnel carries only encoded messages");
        client.deliver_inbound(msg);
    }
    assert_eq!(offset, wire.len(), "the wire must hold whole frames only");
}

#[test]
fn echo_through_single_connection_pool() {
    // Client with a pool of one connection; the backend echoes what it reads.
    let mut client = Client::new(client_config(1));
    let mut server = Server::new(server_config());

    // A local connection arrives and writes "ping".
    let (sid, conn_a, new_frame) = client.open_local_stream();
    assert_eq!(sid, 1);
    assert_eq!(conn_a, 0);
    let (conn_b, data_frame) = client.send_local_chunk(sid, b"ping");
    assert_eq!(conn_b, 0);

    // Both frames travel the single physical connection, in order.
    let mut wire: Vec<u8> = Vec::new();
    wire.extend_from_slice(&new_frame);
    wire.extend_from_slice(&data_frame);
    server_consume(&mut server, &wire);

    // The tunnel-to-backend pump writes the stream's bytes to the backend.
    let mut backend_saw: Vec<u8> = Vec::new();
    while let Some(p) = server.take_for_backend(sid) {
        backend_saw.extend_from_slice(&p);
    }
    assert_eq!(backend_saw, b"ping");

    // The echo backend answers with the same bytes; the backend-to-tunnel
    // pump sends them back as a Data frame for the same stream.
    let reply_frame = relay_backend_chunk(sid, &backend_saw).expect("a nonzero read must relay");
    client_consume(&mut client, &reply_frame);

    // The original local connection receives "ping" back.
    assert_eq!(client.recv_inbound(sid), Some(b"ping".to_vec()));
    assert_eq!(client.recv_inbound(sid), None);
}

#[test]
fn two_streams_share_the_pool_without_mixing() {
    // Two concurrent local connections over a pool of two; stream ids are
    // handed out in acceptance order.
    let mut client = Client::new(client_config(2));
    let mut server = Server::new(server_config());

    let (sid_1, conn_new_1, new_1) = client.open_local_stream();
    let (sid_2, conn_new_2, new_2) = client.open_local_stream();
    assert_eq!(sid_1, 1);
    assert_eq!(sid_2, 2);
    assert_eq!(conn_new_1, 0);
    assert_eq!(conn_new_2, 1);

    let (conn_data_1, data_1) = client.send_local_chunk(sid_1, b"alpha");
    let (conn_data_2, data_2) = client.send_local_chunk(sid_2, b"bravo");
    assert_eq!(conn_data_1, 0);
    assert_eq!(conn_data_2, 1);

    // Per-connection wires: each physical connection carries its frames in
    // send order.
    let mut wire_0: Vec<u8> = Vec::new();
    let mut wire_1: Vec<u8> = Vec::new();
    wire_0.extend_from_slice(&new_1);
    wire_1.extend_from_slice(&new_2);
    wire_0.extend_from_slice(&data_1);
    wire_1.extend_from_slice(&data_2);
    server_consume(&mut server, &wire_0);
    server_consume(&mut server, &wire_1);

    // Each backend relay sees its own stream's bytes and nothing else.
    assert_eq!(server.take_for_backend(sid_1), Some(b"alpha".to_vec()));
    assert_eq!(server.take_for_backend(sid_1), None);
    assert_eq!(server.take_for_backend(sid_2), Some(b"bravo".to_vec()));
    assert_eq!(server.take_for_backend(sid_2), None);

    // Replies cross back and reach only their own local connection.
    let reply_1 = relay_backend_chunk(sid_1, b"ALPHA").unwrap();
    let reply_2 = relay_backend_chunk(sid_2, b"BRAVO").unwrap();
    client_consume(&mut client, &reply_2);
    client_consume(&mut client, &reply_1);
    assert_eq!(client.recv_inbound(sid_1), Some(b"ALPHA".to_vec()));
    assert_eq!(client.recv_inbound(sid_1), None);
    assert_eq!(client.recv_inbound(sid_2), Some(b"BRAVO".to_vec()));
    assert_eq!(client.recv_inbound(sid_2), None);
}

#[test]
fn local_eof_closes_the_server_stream() {
    let mut client = Client::new(client_config(1));
    let mut server = Server::new(server_config());

    let (sid, _conn, new_frame) = client.open_local_stream();
    server_consume(&mut server, &new_frame);

    // The local connection reaches end of input: an empty read forwards
    // nothing, and the upstream pump ends the stream instead.
    assert!(Message::data_for_chunk(sid, &[]).is_none());
    let (_conn, close_frame) = client.end_local_stream(sid);
    server_consume(&mut server, &close_frame);

    // The server observed CloseStream and removed the relay's state.
    assert_eq!(server.take_for_backend(sid), None);

    // A straggling Data frame for the closed stream is dropped silently and
    // does not resurrect the stream.
    let (_conn, stray) = client.send_local_chunk(sid, b"late");
    server_consume(&mut server, &stray);
    assert_eq!(server.take_for_backend(sid), None);

    // The client side tears its half down the same way.
    client.close_local_stream(sid);
    let dropped = client.deliver_inbound(Message::Data { stream_id: sid, data: vec![1] });
    assert!(!dropped);
    assert_eq!(client.recv_inbound(sid), None);
}
