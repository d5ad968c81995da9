use std::sync::{Arc, Mutex};

use fastlink::common::time::{Duration, Instant};
use fastlink::crypto::signature::KeyPair;
use fastlink::mother::error::{Error, ERR_HANDSHAKE, ERR_NAT, ERR_OK, ERR_PARAM, ERR_TIMEOUT, ERR_VERSION};
use fastlink::mother::handshake::{HandshakeError, HandshakeMessage};
use fastlink::mother::message::{MessageHeader, MessageType, ProtocolType, HEADER_SIZE};
use fastlink::mother::scheduler::TaskScheduler;
use fastlink::mother::state_machine::{ConnectionStateMachine, StateEvent};
use fastlink::mother::traits::{ConnectionState, NodeId, SessionId};

#[test]
fn test_error_codes() {
    assert_eq!(Error::Success.error_code(), ERR_OK);
    assert_eq!(Error::VersionMismatch.error_code(), ERR_VERSION);
    assert_eq!(Error::HandshakeFailed.error_code(), ERR_HANDSHAKE);
    assert_eq!(Error::Timeout.error_code(), ERR_TIMEOUT);
}

#[test]
fn error_test_error_display() {
    let err = Error::Timeout;
    assert_eq!(err.to_string(), "Operation timeout");
}

#[test]
fn error_codes_of_parameterised_errors() {
    assert_eq!(Error::InvalidParameter("x".to_string()).error_code(), ERR_PARAM);
    assert_eq!(Error::NatTraversalFailed("y".to_string()).error_code(), ERR_NAT);
    assert_eq!(Error::NetworkError("down".to_string()).to_string(), "Network error: down");
}

#[test]
fn test_handshake_message_creation() {
    let key_pair = KeyPair::generate().unwrap();
    let nonce = vec![0u8; 32];
    let message = HandshakeMessage::new(1, &key_pair, nonce.clone());
    assert_eq!(message.version, 1);
    assert_eq!(message.protocol_id, 1);
    assert!(message.verify(&key_pair).is_ok());
}

#[test]
fn test_handshake_message_verification() {
    let key_pair1 = KeyPair::generate().unwrap();
    let key_pair2 = KeyPair::generate().unwrap();
    let nonce = vec![0u8; 32];
    let message = HandshakeMessage::new(1, &key_pair1, nonce);
    assert!(message.verify(&key_pair1).is_ok());
    assert!(message.verify(&key_pair2).is_err());
}

#[test]
fn handshake_rejects_other_version_and_tampering() {
    let key_pair = KeyPair::generate().unwrap();
    let mut message = HandshakeMessage::new_at(7, &key_pair, vec![1, 2, 3], 1000);
    assert_eq!(message.timestamp, 1000);
    message.timestamp = 1001;
    assert_eq!(message.verify(&key_pair), Err(HandshakeError::InvalidSignature));
    message.version = 2;
    assert_eq!(message.verify(&key_pair), Err(HandshakeError::InvalidVersion));
}

#[test]
fn handshake_sign_data_layout() {
    let data = HandshakeMessage::create_sign_data(0x0102, 0x0304, &[9, 9]);
    assert_eq!(data, vec![1, 2, 0, 0, 0, 0, 0, 0, 3, 4, 9, 9]);
}

#[test]
fn test_message_header_size() {
    let header = MessageHeader::new(MessageType::Data, ProtocolType::P2P, 1, 1, 0);
    assert_eq!(header.header_bytes().len(), 28);
    assert_eq!(HEADER_SIZE, 28);
}

#[test]
fn test_message_header_new() {
    let header = MessageHeader::new(MessageType::Data, ProtocolType::P2P, 12345, 1, 100);
    let magic = header.magic;
    let version = header.version;
    let msg_type = header.msg_type;
    let protocol_type = header.protocol_type;
    assert_eq!(magic, MessageHeader::MAGIC);
    assert_eq!(version, 0x01);
    assert_eq!(msg_type, MessageType::Data.code());
    assert_eq!(protocol_type, ProtocolType::P2P.code());
}

#[test]
fn test_message_header_validate() {
    let mut header = MessageHeader::new(MessageType::Handshake, ProtocolType::Mother, 1, 1, 0);
    assert!(header.validate());
    header.magic = 0;
    assert!(!header.validate());
}

#[test]
fn test_checksum() {
    let mut header = MessageHeader::new(MessageType::Data, ProtocolType::P2P, 1, 1, 10);
    let payload = b"test data";
    header.set_checksum(payload);
    assert!(header.verify_checksum(payload));
    assert!(!header.verify_checksum(b"wrong data"));
}

#[test]
fn header_bytes_layout() {
    let mut header = MessageHeader::new(MessageType::Data, ProtocolType::P2P, 0x0102030405060708, 9, 0);
    header.timestamp = 0;
    let b = header.header_bytes();
    assert_eq!(&b[0..4], &[0x48, 0x4B, 0x4C, 0x46]);
    assert_eq!(b[4], 1);
    assert_eq!(&b[8..16], &[8, 7, 6, 5, 4, 3, 2, 1]);
    assert_eq!(&b[16..20], &[9, 0, 0, 0]);
}

#[test]
fn test_scheduler_basic() {
    let mut scheduler: TaskScheduler<Box<dyn FnOnce() + Send>> = TaskScheduler::new();
    let counter = Arc::new(Mutex::new(0));
    let counter_clone = Arc::clone(&counter);
    scheduler.schedule(0, Duration::from_millis(10), Box::new(move || {
        *counter_clone.lock().unwrap() += 1;
    }));
    assert_eq!(scheduler.len(), 1);
    assert_eq!(*counter.lock().unwrap(), 0);
}

#[test]
fn test_scheduler_priority() {
    let mut scheduler: TaskScheduler<Box<dyn FnOnce() + Send>> = TaskScheduler::new();
    let order = Arc::new(Mutex::new(Vec::new()));
    let order1 = Arc::clone(&order);
    let order2 = Arc::clone(&order);
    scheduler.schedule(1, Duration::from_secs(0), Box::new(move || {
        order1.lock().unwrap().push(1);
    }));
    scheduler.schedule(0, Duration::from_secs(0), Box::new(move || {
        order2.lock().unwrap().push(0);
    }));
    if let Some(task) = scheduler.poll() {
        task();
    }
    let result = order.lock().unwrap().clone();
    assert_eq!(result, vec![0]);
}

#[test]
fn test_scheduler_multiple_tasks() {
    let mut scheduler: TaskScheduler<Box<dyn FnOnce() + Send>> = TaskScheduler::new();
    let order = Arc::new(Mutex::new(Vec::new()));
    for i in 0..5 {
        let order_clone = Arc::clone(&order);
        scheduler.schedule(i, Duration::from_secs(0), Box::new(move || {
            order_clone.lock().unwrap().push(i);
        }));
    }
    while let Some(task) = scheduler.poll() {
        task();
    }
    let result = order.lock().unwrap().clone();
    assert_eq!(result, vec![0, 1, 2, 3, 4]);
}

#[test]
fn scheduler_waits_for_deadline_and_cancels() {
    let mut scheduler: TaskScheduler<u32> = TaskScheduler::new();
    let t0 = Instant::now();
    let late = scheduler.schedule_at(0, t0.plus(Duration::from_secs(5)), 10);
    let early = scheduler.schedule_at(3, t0, 20);
    assert_eq!((late, early), (0, 1));
    // The higher-priority task is not due yet, so nothing runs.
    assert_eq!(scheduler.poll_at(t0), None);
    assert_eq!(scheduler.next_deadline_at(t0), Some(Duration::from_secs(5)));
    assert!(scheduler.cancel(late));
    assert!(!scheduler.cancel(late));
    assert_eq!(scheduler.poll_at(t0), Some(20));
    assert!(scheduler.is_empty());
}

#[test]
fn test_initial_state() {
    let sm = ConnectionStateMachine::new();
    assert_eq!(sm.current_state(), ConnectionState::Closed);
}

#[test]
fn test_state_transitions() {
    let mut sm = ConnectionStateMachine::new();
    assert!(sm.transition(StateEvent::Connect).is_ok());
    assert_eq!(sm.current_state(), ConnectionState::Connecting);
    assert!(sm.transition(StateEvent::HandshakeStart).is_ok());
    assert_eq!(sm.current_state(), ConnectionState::Handshake);
    assert!(sm.transition(StateEvent::HandshakeComplete).is_ok());
    assert_eq!(sm.current_state(), ConnectionState::Established);
}

#[test]
fn test_close_transition() {
    let mut sm = ConnectionStateMachine::new();
    sm.transition(StateEvent::Connect).unwrap();
    sm.transition(StateEvent::HandshakeStart).unwrap();
    sm.transition(StateEvent::HandshakeComplete).unwrap();
    assert!(sm.transition(StateEvent::Close).is_ok());
    assert_eq!(sm.current_state(), ConnectionState::Closing);
    assert!(sm.transition(StateEvent::Close).is_ok());
    assert_eq!(sm.current_state(), ConnectionState::Closed);
}

#[test]
fn test_is_established() {
    let mut sm = ConnectionStateMachine::new();
    assert!(!sm.is_established());
    sm.transition(StateEvent::Connect).unwrap();
    sm.transition(StateEvent::HandshakeStart).unwrap();
    sm.transition(StateEvent::HandshakeComplete).unwrap();
    assert!(sm.is_established());
}

#[test]
fn invalid_transition_is_refused_and_timeout_closes() {
    let mut sm = ConnectionStateMachine::new();
    assert!(sm.transition(StateEvent::HandshakeComplete).is_err());
    assert_eq!(sm.current_state(), ConnectionState::Closed);
    sm.transition(StateEvent::Connect).unwrap();
    sm.transition(StateEvent::Timeout).unwrap();
    assert!(sm.is_closed());
}

#[test]
fn test_node_id_from_public_key() {
    let public_key = b"test_public_key_12345678";
    let node_id = NodeId::from_public_key(public_key);
    assert_eq!(node_id.0.len(), 32);
    assert_eq!(node_id.0.to_vec(), fastlink::crypto::hash::blake3_hash(public_key).0);
}

#[test]
fn test_session_id() {
    let session = SessionId::new(12345);
    assert_eq!(session.0, 12345);
}
