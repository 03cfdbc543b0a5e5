//! The message type ids of RTMP.
use vstd::prelude::*;

verus! {

pub const SET_CHUNK_SIZE: u8 = 1;

pub const ABORT: u8 = 2;

pub const ACKNOWLEDGEMENT: u8 = 3;

pub const USER_CONTROL_EVENT: u8 = 4;

pub const WIN_ACKNOWLEDGEMENT_SIZE: u8 = 5;

pub const SET_PEER_BANDWIDTH: u8 = 6;

pub const AUDIO: u8 = 8;

pub const VIDEO: u8 = 9;

pub const DATA_AMF3: u8 = 15;

pub const SHARED_OBJ_AMF3: u8 = 16;

pub const COMMAND_AMF3: u8 = 17;

pub const DATA_AMF0: u8 = 18;

pub const SHARED_OBJ_AMF0: u8 = 19;

pub const COMMAND_AMF0: u8 = 20;

pub const AGGREGATE: u8 = 22;

} // verus!
