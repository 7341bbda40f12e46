//! Close codes.

use vstd::prelude::*;

verus! {

/// A close code indicating normal closure, meaning that the purpose for which the connection was
/// established has been fulfilled.
pub const CLOSE_NORMAL: u16 = 1000;

/// A close code indicating that an endpoint is "going away", such as a server going down or a
/// browser having navigated away from the page.
pub const CLOSE_GOING_AWAY: u16 = 1001;

/// A close code indicating termination due to a protocol error.
///
/// This code is sent by the peer if it considers itself to have received a protocol violation. The
/// application should never initiate a close using this code, though the library will send it if
/// the peer violates protocol.
///
/// This code is only indicated as a received close code if the peer sends it, presumably in
/// response to the local endpoint violating protocol in a sent frame. If the library detects a
/// protocol violation in a received frame, this code is sent to the peer, but
/// [`CLOSE_RX_PROTOCOL_ERROR`] is indicated as the local receive close code.
pub const CLOSE_PROTOCOL_ERROR: u16 = 1002;

/// A close code indicating that an endpoint is terminating the connection because it received a
/// type of data it cannot accept (e.g., an endpoint that understands only text data but received a
/// binary message).
pub const CLOSE_UNSUPPORTED_DATA: u16 = 1003;

/// A close code indicating that the peer closed the connection gracefully, but without specifying
/// a close code.
///
/// This code is never sent over the wire. The application should never initiate a close using this
/// code. The library will report it as a receive close code if a close frame was received without
/// a close code.
pub const CLOSE_NO_STATUS_RECEIVED: u16 = 1005;

/// A close code indicating that the peer closed the transport without sending a close frame.
///
/// This code is never sent over the wire. The application should never initiate a close using this
/// code. The library will report it as a receive close code if a transport closure occurs without
/// a preceding close frame.
pub const CLOSE_ABNORMAL: u16 = 1006;

/// A close code indicating that an endpoint is terminating the connection because it received a
/// text message containing a non-UTF-8 payload.
///
/// This code is sent by the peer if it considers itself to have received a non-UTF-8 payload. The
/// application should never initiate a close using this code, though the library will send it if
/// the peer sends a non-UTF-8 text-type message.
///
/// This code is only indicated as a received close code if the peer sends it, presumably in
/// response to the local endpoint sending a non-UTF-8 text message. If the library detects a
/// non-UTF-8 payload in a received text message, this code is sent to the peer, but
/// [`CLOSE_RX_INVALID_FRAME_PAYLOAD_DATA`] is indicated as the local receive close code.
pub const CLOSE_INVALID_FRAME_PAYLOAD_DATA: u16 = 1007;

/// A close code indicating that an endpoint is terminating the connection because it received a
/// message that violates its policy.
pub const CLOSE_POLICY_VIOLATION: u16 = 1008;

/// A close code indicating that an endpoint is terminating the connection because it received a
/// message that is too big for it to process.
///
/// This code is sent by the peer if it considers itself to have received a too-big message. The
/// application may initiate a close using this code. The library will also send it if the peer
/// sends a message which exceeds the specified maximum message size.
///
/// This code is only reported as a received close code if the peer sends it, presumably in
/// response to the local endpoint sending a too-long message. If the library detects a too-long
/// received message, this code is sent to the peer, but [`CLOSE_RX_MESSAGE_TOO_BIG`] is indicated
/// as the local receive close code.
pub const CLOSE_MESSAGE_TOO_BIG: u16 = 1009;

/// A close code indicating that the client is terminating the connection because it expected the
/// server to negotiate one or more extensions, but the server didn't return them in the response
/// message of the WebSocket handshake.
pub const CLOSE_MANDATORY_EXTENSION: u16 = 1010;

/// A close code indicating that the server is terminating the connection because it encountered an
/// unexpected condition that prevented it from fulfilling the request.
pub const CLOSE_INTERNAL_SERVER_ERROR: u16 = 1011;

/// A close code indicating that the library detected a protocol violation from the peer.
///
/// This code is never sent over the wire. The application should never initiate a close using this
/// code. The library will report it as a receive close code if the peer violated protocol. If the
/// peer claims a protocol violation by the local endpoint, [`CLOSE_PROTOCOL_ERROR`] is reported as
/// the receive close code instead.
pub const CLOSE_RX_PROTOCOL_ERROR: u16 = 4358;

/// A close code indicating that the library detected a non-UTF-8 payload in text message received
/// from the peer.
///
/// This code is never sent over the wire. The application should never initiate a close using this
/// code. The library will report it as a receive close code if the peer sent a non-UTF-8 text
/// message. If the peer claims a non-UTF-8 text message from the local endpoint,
/// [`CLOSE_INVALID_FRAME_PAYLOAD_DATA`] is reported as the receive close code instead.
pub const CLOSE_RX_INVALID_FRAME_PAYLOAD_DATA: u16 = 4359;

/// A close code indicating that the library detected a too-long message received from the peer.
///
/// This code is never sent over the wire. The application should never initiate a close using this
/// code. The library will report it as a receive close code if the peer sent a too-long message.
/// If the peer claims a too-long message from the local endpoint, [`CLOSE_MESSAGE_TOO_BIG`] is
/// reported as the receive close code instead.
pub const CLOSE_RX_MESSAGE_TOO_BIG: u16 = 4360;

} // verus!
