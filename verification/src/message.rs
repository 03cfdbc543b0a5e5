//! The messages a server receives and the command objects it sends, and
//! how they are read from and written to AMF0.
use vstd::prelude::*;
use vstd::slice::slice_to_vec;
use vstd::string::*;

use crate::amf0::{
    AmfProperty,
    AmfScalar,
    AmfValue,
    ScalarModel,
    ValueModel,
    amf_number_from_u32,
    be16_bytes,
    be32_bytes,
    push_be16,
    push_be32,
    amf_number_to_u32,
    decode_values,
    encode_values,
    leading_values,
    number_to_u32,
    props_view,
    u32_to_number,
    values_bytes,
    values_encodable,
    values_view,
};
use crate::error::ProtocolError;

verus! {

broadcast use vstd::string::group_string_axioms;

// ------------------------------------------------------------- helpers

/// The bytes of a text.
fn text(s: &str) -> (r: Vec<u8>)
    ensures
        r@ == s.spec_bytes(),
{
    slice_to_vec(s.as_bytes())
}

/// Whether two byte strings are equal.
pub fn bytes_eq(a: &[u8], b: &[u8]) -> (r: bool)
    ensures
        r == (a@ == b@),
{
    if a.len() != b.len() {
        return false;
    }
    let mut i: usize = 0;
    while i < a.len()
        invariant
            i <= a@.len(),
            a@.len() == b@.len(),
            forall|j: int| 0 <= j < i ==> a@[j] == b@[j],
        decreases a@.len() - i,
    {
        if a[i] != b[i] {
            return false;
        }
        i += 1;
    }
    assert(a@ =~= b@);
    true
}

/// The string that a value holds, if it is a string.
pub open spec fn str_of(v: ValueModel) -> Option<Seq<u8>> {
    match v {
        ValueModel::Scalar(ScalarModel::Str(s)) => Some(s),
        _ => None,
    }
}

/// The bits of the number that a value holds, if it is a number.
pub open spec fn number_of(v: ValueModel) -> Option<u64> {
    match v {
        ValueModel::Scalar(ScalarModel::Number(b)) => Some(b),
        _ => None,
    }
}

/// The properties of a value, if it is an object.
pub open spec fn object_of(v: ValueModel) -> Option<Seq<(Seq<u8>, ScalarModel)>> {
    match v {
        ValueModel::Object(p) => Some(p),
        _ => None,
    }
}

/// The properties of a value, if it is an object or an ECMA array.
pub open spec fn props_of(v: ValueModel) -> Option<Seq<(Seq<u8>, ScalarModel)>> {
    match v {
        ValueModel::Object(p) => Some(p),
        ValueModel::EcmaArray(p) => Some(p),
        _ => None,
    }
}

/// Whether a value is null.
pub open spec fn is_null(v: ValueModel) -> bool {
    v == ValueModel::Scalar(ScalarModel::Null)
}

/// The string under `key`: that of the first property named `key`, or
/// nothing when there is no such property or it does not hold a string.
pub open spec fn prop_string(p: Seq<(Seq<u8>, ScalarModel)>, key: Seq<u8>) -> Seq<u8>
    decreases p.len(),
{
    if p.len() == 0 {
        Seq::empty()
    } else if p[0].0 == key {
        match p[0].1 {
            ScalarModel::Str(s) => s,
            _ => Seq::empty(),
        }
    } else {
        prop_string(p.drop_first(), key)
    }
}

fn as_str(v: &AmfValue) -> (r: Option<Vec<u8>>)
    ensures
        match str_of(v@) {
            Some(s) => r matches Some(x) && x@ == s,
            None => r is None,
        },
{
    match v {
        AmfValue::Scalar(AmfScalar::Str(s)) => Some(slice_to_vec(s.as_slice())),
        _ => None,
    }
}

fn as_number(v: &AmfValue) -> (r: Option<u64>)
    ensures
        r == number_of(v@),
{
    match v {
        AmfValue::Scalar(AmfScalar::Number(b)) => Some(*b),
        _ => None,
    }
}

fn is_null_value(v: &AmfValue) -> (r: bool)
    ensures
        r == is_null(v@),
{
    match v {
        AmfValue::Scalar(AmfScalar::Null) => true,
        _ => false,
    }
}

fn lookup_string(props: &Vec<AmfProperty>, key: &[u8]) -> (r: Vec<u8>)
    ensures
        r@ == prop_string(props_view(props@), key@),
{
    let ghost pv = props_view(props@);
    assert(pv.subrange(0, pv.len() as int) =~= pv);
    let mut i: usize = 0;
    while i < props.len()
        invariant
            i <= props@.len(),
            pv == props_view(props@),
            prop_string(pv, key@) == prop_string(pv.subrange(i as int, pv.len() as int), key@),
        decreases props@.len() - i,
    {
        let ghost rest = pv.subrange(i as int, pv.len() as int);
        assert(rest[0] == props@[i as int]@);
        assert(rest.drop_first() =~= pv.subrange(i + 1, pv.len() as int));
        if bytes_eq(props[i].key.as_slice(), key) {
            match &props[i].value {
                AmfScalar::Str(s) => {
                    return slice_to_vec(s.as_slice());
                },
                _ => {
                    return Vec::new();
                },
            }
        }
        i += 1;
    }
    Vec::new()
}

// ------------------------------------------------------ simple messages

/// Set Chunk Size: the size of the chunks the peer sends from now on.
#[derive(Debug)]
pub struct SetChunkSizeMessage {
    pub chunk_size: usize,
}

impl SetChunkSizeMessage {
    pub fn new(chunk_size: usize) -> (m: SetChunkSizeMessage)
        ensures
            m.chunk_size == chunk_size,
    {
        SetChunkSizeMessage { chunk_size }
    }
}

/// Acknowledgement: how many bytes the peer has received so far.
#[derive(Debug)]
pub struct AcknowledgementMessage {
    pub sequence_number: u32,
}

impl AcknowledgementMessage {
    pub fn new(sequence_number: u32) -> (m: AcknowledgementMessage)
        ensures
            m.sequence_number == sequence_number,
    {
        AcknowledgementMessage { sequence_number }
    }
}

/// An audio message: its stream and its payload.
#[derive(Debug)]
pub struct AudioData {
    pub stream_id: u32,
    pub data: Vec<u8>,
}

impl AudioData {
    pub fn new(stream_id: u32, data: Vec<u8>) -> (m: AudioData)
        ensures
            m.stream_id == stream_id,
            m.data@ == data@,
    {
        AudioData { stream_id, data }
    }
}

/// A video message: its stream and its payload.
#[derive(Debug)]
pub struct VideoData {
    pub stream_id: u32,
    pub data: Vec<u8>,
}

impl VideoData {
    pub fn new(stream_id: u32, data: Vec<u8>) -> (m: VideoData)
        ensures
            m.stream_id == stream_id,
            m.data@ == data@,
    {
        VideoData { stream_id, data }
    }
}

/// A play request.
#[derive(Debug)]
pub struct PlayMessage {
    pub command_name: Vec<u8>,
    pub transaction_id: u32,
    pub stream_name: Vec<u8>,
}

/// A pause request.
#[derive(Debug)]
pub struct PauseMessage {
    pub command_name: Vec<u8>,
    pub transaction_id: u32,
    pub pause: bool,
}

// ------------------------------------------------------- AMF0 commands

/// The name of the command or data message `data`: its first value,
/// which must be a string.
pub open spec fn command_name_of(data: Seq<u8>) -> Option<Seq<u8>> {
    match leading_values(data, 1) {
        Some(v) => str_of(v[0]),
        None => None,
    }
}

/// The first value of an AMF0 command or data message.
#[derive(Debug)]
pub struct BasicCommand {
    pub command_name: Vec<u8>,
}

impl BasicCommand {
    /// Reads the name that starts `data`.
    pub fn parse(data: &Vec<u8>) -> (r: Result<BasicCommand, ProtocolError>)
        ensures
            match command_name_of(data@) {
                Some(n) => r matches Ok(c) && c.command_name@ == n,
                None => r == Err::<BasicCommand, ProtocolError>(ProtocolError::MalformedAmf),
            },
    {
        let values = decode_values(data.as_slice(), 1)?;
        assert(values_view(values@)[0] == values@[0]@);
        match as_str(&values[0]) {
            Some(n) => Ok(BasicCommand { command_name: n }),
            None => Err(ProtocolError::MalformedAmf),
        }
    }
}

/// What the connect command says about the application.
#[derive(Debug)]
pub struct ConnectObject {
    pub app: Vec<u8>,
    pub flash_ver: Vec<u8>,
    pub swf_url: Vec<u8>,
    pub tc_url: Vec<u8>,
    pub stream_type: Vec<u8>,
}

/// The connect command.
#[derive(Debug)]
pub struct ConnectMessage {
    pub command_name: Vec<u8>,
    pub id: u32,
    pub connect_object: ConnectObject,
}

/// The name, the transaction number and the command object properties
/// of a connect command: a string, a number and an object.
pub open spec fn connect_model(data: Seq<u8>) -> Option<(Seq<u8>, u64, Seq<(Seq<u8>, ScalarModel)>)> {
    match leading_values(data, 3) {
        Some(v) => if str_of(v[0]) is Some && number_of(v[1]) is Some && object_of(v[2]) is Some {
            Some((str_of(v[0])->0, number_of(v[1])->0, object_of(v[2])->0))
        } else {
            None
        },
        None => None,
    }
}

/// `m` is what the connect command `data` says: the transaction number
/// as an integer, and the strings under `app`, `flashVer`, `swfUrl`,
/// `tcUrl` and `type`.
pub open spec fn connect_matches(m: ConnectMessage, data: Seq<u8>) -> bool {
    match connect_model(data) {
        Some((name, t, p)) => {
            &&& m.command_name@ == name
            &&& m.id == number_to_u32(t)
            &&& m.connect_object.app@ == prop_string(p, "app".spec_bytes())
            &&& m.connect_object.flash_ver@ == prop_string(p, "flashVer".spec_bytes())
            &&& m.connect_object.swf_url@ == prop_string(p, "swfUrl".spec_bytes())
            &&& m.connect_object.tc_url@ == prop_string(p, "tcUrl".spec_bytes())
            &&& m.connect_object.stream_type@ == prop_string(p, "type".spec_bytes())
        },
        None => false,
    }
}

impl ConnectMessage {
    /// Reads a connect command.
    pub fn parse(data: &Vec<u8>) -> (r: Result<ConnectMessage, ProtocolError>)
        ensures
            connect_model(data@) is Some ==> (r matches Ok(m) && connect_matches(m, data@)),
            connect_model(data@) is None ==> r == Err::<ConnectMessage, ProtocolError>(
                ProtocolError::MalformedAmf,
            ),
    {
        let values = decode_values(data.as_slice(), 3)?;
        assert(values_view(values@)[0] == values@[0]@);
        assert(values_view(values@)[1] == values@[1]@);
        assert(values_view(values@)[2] == values@[2]@);
        let command_name = match as_str(&values[0]) {
            Some(n) => n,
            None => {
                return Err(ProtocolError::MalformedAmf);
            },
        };
        let bits = match as_number(&values[1]) {
            Some(b) => b,
            None => {
                return Err(ProtocolError::MalformedAmf);
            },
        };
        match &values[2] {
            AmfValue::Object(p) => {
                let connect_object = ConnectObject {
                    app: lookup_string(p, "app".as_bytes()),
                    flash_ver: lookup_string(p, "flashVer".as_bytes()),
                    swf_url: lookup_string(p, "swfUrl".as_bytes()),
                    tc_url: lookup_string(p, "tcUrl".as_bytes()),
                    stream_type: lookup_string(p, "type".as_bytes()),
                };
                Ok(ConnectMessage { command_name, id: amf_number_to_u32(bits), connect_object })
            },
            _ => Err(ProtocolError::MalformedAmf),
        }
    }
}

/// The name, the transaction number and the stream key of a command of
/// the form: string, number, null, string.
pub open spec fn keyed_command_model(data: Seq<u8>) -> Option<(Seq<u8>, u64, Seq<u8>)> {
    match leading_values(data, 4) {
        Some(v) => if str_of(v[0]) is Some && number_of(v[1]) is Some && is_null(v[2]) && str_of(
            v[3],
        ) is Some {
            Some((str_of(v[0])->0, number_of(v[1])->0, str_of(v[3])->0))
        } else {
            None
        },
        None => None,
    }
}

/// The releaseStream command.
#[derive(Debug)]
pub struct ReleaseStream {
    pub command_name: Vec<u8>,
    pub transaction_id: u32,
    pub stream_key: Vec<u8>,
}

/// The FCPublish command.
#[derive(Debug)]
pub struct FCPublish {
    pub command_name: Vec<u8>,
    pub transaction_id: u32,
    pub stream_key: Vec<u8>,
}

fn parse_keyed_command(data: &Vec<u8>) -> (r: Result<(Vec<u8>, u32, Vec<u8>), ProtocolError>)
    ensures
        match keyed_command_model(data@) {
            Some((n, t, k)) => r matches Ok((x, y, z)) && x@ == n && y == number_to_u32(t) && z@
                == k,
            None => r == Err::<(Vec<u8>, u32, Vec<u8>), ProtocolError>(ProtocolError::MalformedAmf),
        },
{
    let values = decode_values(data.as_slice(), 4)?;
    assert(values_view(values@)[0] == values@[0]@);
    assert(values_view(values@)[1] == values@[1]@);
    assert(values_view(values@)[2] == values@[2]@);
    assert(values_view(values@)[3] == values@[3]@);
    let name = match as_str(&values[0]) {
        Some(n) => n,
        None => {
            return Err(ProtocolError::MalformedAmf);
        },
    };
    let bits = match as_number(&values[1]) {
        Some(b) => b,
        None => {
            return Err(ProtocolError::MalformedAmf);
        },
    };
    if !is_null_value(&values[2]) {
        return Err(ProtocolError::MalformedAmf);
    }
    let key = match as_str(&values[3]) {
        Some(k) => k,
        None => {
            return Err(ProtocolError::MalformedAmf);
        },
    };
    Ok((name, amf_number_to_u32(bits), key))
}

impl ReleaseStream {
    /// Reads a releaseStream command: its name, transaction number, a
    /// null and the stream key.
    pub fn parse(data: &Vec<u8>) -> (r: Result<ReleaseStream, ProtocolError>)
        ensures
            match keyed_command_model(data@) {
                Some((n, t, k)) => r matches Ok(m) && m.command_name@ == n && m.transaction_id
                    == number_to_u32(t) && m.stream_key@ == k,
                None => r == Err::<ReleaseStream, ProtocolError>(ProtocolError::MalformedAmf),
            },
    {
        let (command_name, transaction_id, stream_key) = parse_keyed_command(data)?;
        Ok(ReleaseStream { command_name, transaction_id, stream_key })
    }
}

impl FCPublish {
    /// Reads an FCPublish command: its name, transaction number, a null
    /// and the stream key.
    pub fn parse(data: &Vec<u8>) -> (r: Result<FCPublish, ProtocolError>)
        ensures
            match keyed_command_model(data@) {
                Some((n, t, k)) => r matches Ok(m) && m.command_name@ == n && m.transaction_id
                    == number_to_u32(t) && m.stream_key@ == k,
                None => r == Err::<FCPublish, ProtocolError>(ProtocolError::MalformedAmf),
            },
    {
        let (command_name, transaction_id, stream_key) = parse_keyed_command(data)?;
        Ok(FCPublish { command_name, transaction_id, stream_key })
    }
}

/// The name and the transaction number of a createStream command.
pub open spec fn create_stream_model(data: Seq<u8>) -> Option<(Seq<u8>, u64)> {
    match leading_values(data, 2) {
        Some(v) => if str_of(v[0]) is Some && number_of(v[1]) is Some {
            Some((str_of(v[0])->0, number_of(v[1])->0))
        } else {
            None
        },
        None => None,
    }
}

/// The createStream command.
#[derive(Debug)]
pub struct CreateStream {
    pub command_name: Vec<u8>,
    pub transaction_id: u32,
}

impl CreateStream {
    /// Reads a createStream command: its name and transaction number.
    pub fn parse(data: &Vec<u8>) -> (r: Result<CreateStream, ProtocolError>)
        ensures
            match create_stream_model(data@) {
                Some((n, t)) => r matches Ok(m) && m.command_name@ == n && m.transaction_id
                    == number_to_u32(t),
                None => r == Err::<CreateStream, ProtocolError>(ProtocolError::MalformedAmf),
            },
    {
        let values = decode_values(data.as_slice(), 2)?;
        assert(values_view(values@)[0] == values@[0]@);
        assert(values_view(values@)[1] == values@[1]@);
        let command_name = match as_str(&values[0]) {
            Some(n) => n,
            None => {
                return Err(ProtocolError::MalformedAmf);
            },
        };
        match as_number(&values[1]) {
            Some(b) => Ok(CreateStream { command_name, transaction_id: amf_number_to_u32(b) }),
            None => Err(ProtocolError::MalformedAmf),
        }
    }
}

/// The name, transaction number, stream key and publishing type of a
/// publish command: string, number, null, string, string.
pub open spec fn publish_model(data: Seq<u8>) -> Option<(Seq<u8>, u64, Seq<u8>, Seq<u8>)> {
    match leading_values(data, 5) {
        Some(v) => if str_of(v[0]) is Some && number_of(v[1]) is Some && is_null(v[2]) && str_of(
            v[3],
        ) is Some && str_of(v[4]) is Some {
            Some((str_of(v[0])->0, number_of(v[1])->0, str_of(v[3])->0, str_of(v[4])->0))
        } else {
            None
        },
        None => None,
    }
}

/// The publish command.
#[derive(Debug)]
pub struct Publish {
    pub command_name: Vec<u8>,
    pub transaction_id: u32,
    pub stream_key: Vec<u8>,
    pub publish_type: Vec<u8>,
}

impl Publish {
    /// Reads a publish command.
    pub fn parse(data: &Vec<u8>) -> (r: Result<Publish, ProtocolError>)
        ensures
            match publish_model(data@) {
                Some((n, t, k, ty)) => r matches Ok(m) && m.command_name@ == n && m.transaction_id
                    == number_to_u32(t) && m.stream_key@ == k && m.publish_type@ == ty,
                None => r == Err::<Publish, ProtocolError>(ProtocolError::MalformedAmf),
            },
    {
        let values = decode_values(data.as_slice(), 5)?;
        assert(values_view(values@)[0] == values@[0]@);
        assert(values_view(values@)[1] == values@[1]@);
        assert(values_view(values@)[2] == values@[2]@);
        assert(values_view(values@)[3] == values@[3]@);
        assert(values_view(values@)[4] == values@[4]@);
        let command_name = match as_str(&values[0]) {
            Some(n) => n,
            None => {
                return Err(ProtocolError::MalformedAmf);
            },
        };
        let bits = match as_number(&values[1]) {
            Some(b) => b,
            None => {
                return Err(ProtocolError::MalformedAmf);
            },
        };
        if !is_null_value(&values[2]) {
            return Err(ProtocolError::MalformedAmf);
        }
        let stream_key = match as_str(&values[3]) {
            Some(k) => k,
            None => {
                return Err(ProtocolError::MalformedAmf);
            },
        };
        let publish_type = match as_str(&values[4]) {
            Some(k) => k,
            None => {
                return Err(ProtocolError::MalformedAmf);
            },
        };
        Ok(
            Publish {
                command_name,
                transaction_id: amf_number_to_u32(bits),
                stream_key,
                publish_type,
            },
        )
    }
}

/// The name, the data name and the metadata of a data message: a
/// string, a string, and an object or ECMA array.
pub open spec fn data_frame_model(data: Seq<u8>) -> Option<
    (Seq<u8>, Seq<u8>, Seq<(Seq<u8>, ScalarModel)>),
> {
    match leading_values(data, 3) {
        Some(v) => if str_of(v[0]) is Some && str_of(v[1]) is Some && props_of(v[2]) is Some {
            Some((str_of(v[0])->0, str_of(v[1])->0, props_of(v[2])->0))
        } else {
            None
        },
        None => None,
    }
}

/// The `@setDataFrame` data message, which carries the stream's metadata.
#[derive(Debug)]
pub struct SetDataFrame {
    pub command_name: Vec<u8>,
    pub data_name: Vec<u8>,
    pub metadata: Vec<AmfProperty>,
}

impl SetDataFrame {
    /// Reads an `@setDataFrame` message.
    pub fn parse(data: &Vec<u8>) -> (r: Result<SetDataFrame, ProtocolError>)
        ensures
            match data_frame_model(data@) {
                Some((n, d, p)) => r matches Ok(m) && m.command_name@ == n && m.data_name@ == d
                    && props_view(m.metadata@) == p,
                None => r == Err::<SetDataFrame, ProtocolError>(ProtocolError::MalformedAmf),
            },
    {
        let mut values = decode_values(data.as_slice(), 3)?;
        assert(values_view(values@)[0] == values@[0]@);
        assert(values_view(values@)[1] == values@[1]@);
        assert(values_view(values@)[2] == values@[2]@);
        let command_name = match as_str(&values[0]) {
            Some(n) => n,
            None => {
                return Err(ProtocolError::MalformedAmf);
            },
        };
        let data_name = match as_str(&values[1]) {
            Some(n) => n,
            None => {
                return Err(ProtocolError::MalformedAmf);
            },
        };
        let third = values.pop();
        match third {
            Some(AmfValue::Object(p)) => Ok(SetDataFrame { command_name, data_name, metadata: p }),
            Some(AmfValue::EcmaArray(p)) => Ok(
                SetDataFrame { command_name, data_name, metadata: p },
            ),
            _ => Err(ProtocolError::MalformedAmf),
        }
    }
}

/// A message the server has read.
#[derive(Debug)]
pub enum RtmpMessage {
    Connect(ConnectMessage),
    CreateStream(CreateStream),
    SetChunkSize(SetChunkSizeMessage),
    _Play(PlayMessage),
    _Pause(PauseMessage),
    Publish(Publish),
    AudioData(AudioData),
    VideoData(VideoData),
    Acknowledgement(AcknowledgementMessage),
    ReleaseStream(ReleaseStream),
    FCPublish(FCPublish),
    SetDataFrame(SetDataFrame),
}


// ------------------------------------------------------------- replies

/// What the server tells of itself in its reply to connect.
#[derive(Debug)]
pub struct CommandObject {
    pub fms_ver: Vec<u8>,
    pub capabilities: u32,
}

impl CommandObject {
    pub fn new(fms_ver: Vec<u8>, capabilities: u32) -> (c: CommandObject)
        ensures
            c.fms_ver@ == fms_ver@,
            c.capabilities == capabilities,
    {
        CommandObject { fms_ver, capabilities }
    }
}

/// The object that carries a server's version and capabilities.
pub open spec fn command_object_value(fms_ver: Seq<u8>, capabilities: u32) -> ValueModel {
    ValueModel::Object(
        seq![
            ("fmsVer".spec_bytes(), ScalarModel::Str(fms_ver)),
            ("capabilities".spec_bytes(), ScalarModel::Number(u32_to_number(capabilities))),
        ],
    )
}

/// A `_result` reply: the command name, the transaction number it
/// answers, the server's command object (or null), and a number (the
/// stream id, for createStream).
#[derive(Debug)]
pub struct ResultObject {
    pub command_name: Vec<u8>,
    pub transaction_id: u32,
    pub stream_id: u32,
    pub command_object: Option<CommandObject>,
}

/// The values that a result object is sent as.
pub open spec fn result_values(r: ResultObject) -> Seq<ValueModel> {
    seq![
        ValueModel::Scalar(ScalarModel::Str(r.command_name@)),
        ValueModel::Scalar(ScalarModel::Number(u32_to_number(r.transaction_id))),
        match r.command_object {
            Some(c) => command_object_value(c.fms_ver@, c.capabilities),
            None => ValueModel::Scalar(ScalarModel::Null),
        },
        ValueModel::Scalar(ScalarModel::Number(u32_to_number(r.stream_id))),
    ]
}

impl ResultObject {
    pub fn new(command_name: Vec<u8>, transaction_id: u32, stream_id: u32) -> (r: ResultObject)
        ensures
            r.command_name@ == command_name@,
            r.transaction_id == transaction_id,
            r.stream_id == stream_id,
            r.command_object is None,
    {
        ResultObject { command_name, transaction_id, stream_id, command_object: None }
    }

    /// Attaches the server's command object.
    pub fn set_command_object(&mut self, command_object: CommandObject)
        ensures
            final(self).command_name == old(self).command_name,
            final(self).transaction_id == old(self).transaction_id,
            final(self).stream_id == old(self).stream_id,
            final(self).command_object == Some(command_object),
    {
        self.command_object = Some(command_object);
    }

    /// Encodes the reply; refused, with `Unencodable`, when the command
    /// name or the version string is longer than 65535 bytes.
    pub fn parse(&self) -> (r: Result<Vec<u8>, ProtocolError>)
        ensures
            values_encodable(result_values(*self)) ==> (r matches Ok(b) && b@ == values_bytes(
                result_values(*self),
            )),
            !values_encodable(result_values(*self)) ==> r == Err::<Vec<u8>, ProtocolError>(
                ProtocolError::Unencodable,
            ),
    {
        let mut values: Vec<AmfValue> = Vec::new();
        values.push(AmfValue::Scalar(AmfScalar::Str(slice_to_vec(self.command_name.as_slice()))));
        values.push(AmfValue::Scalar(AmfScalar::Number(amf_number_from_u32(self.transaction_id))));
        match &self.command_object {
            Some(c) => {
                let mut props: Vec<AmfProperty> = Vec::new();
                props.push(
                    AmfProperty {
                        key: text("fmsVer"),
                        value: AmfScalar::Str(slice_to_vec(c.fms_ver.as_slice())),
                    },
                );
                props.push(
                    AmfProperty {
                        key: text("capabilities"),
                        value: AmfScalar::Number(amf_number_from_u32(c.capabilities)),
                    },
                );
                assert(props_view(props@) =~= command_object_value(
                    c.fms_ver@,
                    c.capabilities,
                )->Object_0);
                values.push(AmfValue::Object(props));
            },
            None => {
                values.push(AmfValue::Scalar(AmfScalar::Null));
            },
        }
        values.push(AmfValue::Scalar(AmfScalar::Number(amf_number_from_u32(self.stream_id))));
        assert(values_view(values@) =~= result_values(*self));
        encode_values(&values)
    }
}

/// The values of the onStatus reply to publish: the publish has started.
pub open spec fn on_status_values(transaction_id: u32) -> Seq<ValueModel> {
    seq![
        ValueModel::Scalar(ScalarModel::Str("onStatus".spec_bytes())),
        ValueModel::Scalar(ScalarModel::Number(u32_to_number(transaction_id))),
        ValueModel::Scalar(ScalarModel::Null),
        ValueModel::Object(
            seq![
                ("level".spec_bytes(), ScalarModel::Str("status".spec_bytes())),
                ("code".spec_bytes(), ScalarModel::Str("NetStream.Publish.Start".spec_bytes())),
                ("description".spec_bytes(), ScalarModel::Str("Start publishing".spec_bytes())),
            ],
        ),
    ]
}

/// The onStatus reply can always be encoded.
pub proof fn lemma_on_status_encodable(transaction_id: u32)
    ensures
        values_encodable(on_status_values(transaction_id)),
{
    let vs = on_status_values(transaction_id);
    reveal_strlit("onStatus");
    reveal_strlit("level");
    reveal_strlit("status");
    reveal_strlit("code");
    reveal_strlit("NetStream.Publish.Start");
    reveal_strlit("description");
    reveal_strlit("Start publishing");
    assert(is_ascii("onStatus"));
    assert(is_ascii("level"));
    assert(is_ascii("status"));
    assert(is_ascii("code"));
    assert(is_ascii("NetStream.Publish.Start"));
    assert(is_ascii("description"));
    assert(is_ascii("Start publishing"));
    let p = vs[3]->Object_0;
    assert forall|i: int| 0 <= i < p.len() implies 0 < #[trigger] p[i].0.len() <= 65535
        && crate::amf0::scalar_encodable(p[i].1) by {}
    assert forall|i: int| 0 <= i < vs.len() implies crate::amf0::value_encodable(
        #[trigger] vs[i],
    ) by {}
}

/// The onStatus reply to a publish command.
#[derive(Debug)]
pub struct OnStatus {
    pub transaction_id: u32,
}

impl OnStatus {
    pub fn new(transaction_id: u32) -> (s: OnStatus)
        ensures
            s.transaction_id == transaction_id,
    {
        OnStatus { transaction_id }
    }

    /// Encodes the reply.
    pub fn parse(&self) -> (r: Result<Vec<u8>, ProtocolError>)
        ensures
            r matches Ok(b) && b@ == values_bytes(on_status_values(self.transaction_id)),
    {
        let mut props: Vec<AmfProperty> = Vec::new();
        props.push(AmfProperty { key: text("level"), value: AmfScalar::Str(text("status")) });
        props.push(
            AmfProperty { key: text("code"), value: AmfScalar::Str(text("NetStream.Publish.Start")) },
        );
        props.push(
            AmfProperty { key: text("description"), value: AmfScalar::Str(text("Start publishing")) },
        );
        let mut values: Vec<AmfValue> = Vec::new();
        values.push(AmfValue::Scalar(AmfScalar::Str(text("onStatus"))));
        values.push(AmfValue::Scalar(AmfScalar::Number(amf_number_from_u32(self.transaction_id))));
        values.push(AmfValue::Scalar(AmfScalar::Null));
        values.push(AmfValue::Object(props));
        let ghost vs = on_status_values(self.transaction_id);
        assert(values_view(values@) =~= vs) by {
            assert(props_view(props@) =~= vs[3]->Object_0);
        }
        proof {
            lemma_on_status_encodable(self.transaction_id);
        }
        encode_values(&values)
    }
}

/// A user control event: its type and the stream it concerns, in two and
/// four bytes, most significant first.
#[derive(Debug)]
pub struct Event {
    pub event_type: u16,
    pub stream_id: u32,
}

impl Event {
    pub fn new(event_type: u16, stream_id: u32) -> (e: Event)
        ensures
            e.event_type == event_type,
            e.stream_id == stream_id,
    {
        Event { event_type, stream_id }
    }

    /// Encodes the event.
    pub fn parse(&self) -> (r: Vec<u8>)
        ensures
            r@ == be16_bytes(self.event_type as int) + be32_bytes(self.stream_id as int),
    {
        let mut out: Vec<u8> = Vec::new();
        push_be16(&mut out, self.event_type as usize);
        push_be32(&mut out, self.stream_id as usize);
        assert(out@ =~= be16_bytes(self.event_type as int) + be32_bytes(self.stream_id as int));
        out
    }
}


/// The names of the commands and data messages the server reads differ
/// from one another.
pub proof fn lemma_command_names_distinct()
    ensures
        "connect".spec_bytes() != "releaseStream".spec_bytes(),
        "connect".spec_bytes() != "FCPublish".spec_bytes(),
        "connect".spec_bytes() != "createStream".spec_bytes(),
        "connect".spec_bytes() != "publish".spec_bytes(),
        "releaseStream".spec_bytes() != "FCPublish".spec_bytes(),
        "releaseStream".spec_bytes() != "createStream".spec_bytes(),
        "releaseStream".spec_bytes() != "publish".spec_bytes(),
        "FCPublish".spec_bytes() != "createStream".spec_bytes(),
        "FCPublish".spec_bytes() != "publish".spec_bytes(),
        "createStream".spec_bytes() != "publish".spec_bytes(),
{
    reveal_strlit("connect");
    reveal_strlit("releaseStream");
    reveal_strlit("FCPublish");
    reveal_strlit("createStream");
    reveal_strlit("publish");
    assert(is_ascii("connect"));
    assert(is_ascii("releaseStream"));
    assert(is_ascii("FCPublish"));
    assert(is_ascii("createStream"));
    assert(is_ascii("publish"));
    assert("connect".spec_bytes()[0] != "publish".spec_bytes()[0]);
}

/// `s` is the string of the first property named `key` when that holds a
/// string, and empty when it holds something else or no property is
/// named `key`.
pub open spec fn first_string_is(p: Seq<(Seq<u8>, ScalarModel)>, key: Seq<u8>, s: Seq<u8>) -> bool {
    &&& forall|i: int|
        0 <= i < p.len() && #[trigger] p[i].0 == key && (forall|j: int| 0 <= j < i ==> p[j].0 != key)
            ==> s == (match p[i].1 {
            ScalarModel::Str(x) => x,
            _ => Seq::<u8>::empty(),
        })
    &&& (forall|i: int| 0 <= i < p.len() ==> p[i].0 != key) ==> s == Seq::<u8>::empty()
}

proof fn lemma_prop_string_first(p: Seq<(Seq<u8>, ScalarModel)>, key: Seq<u8>)
    ensures
        first_string_is(p, key, prop_string(p, key)),
    decreases p.len(),
{
    if p.len() > 0 {
        if p[0].0 == key {
            assert forall|i: int|
                0 <= i < p.len() && #[trigger] p[i].0 == key && (forall|j: int|
                    0 <= j < i ==> p[j].0 != key) implies i == 0 by {
                if i > 0 {
                    assert(p[0].0 != key);
                }
            }
        } else {
            let q = p.drop_first();
            lemma_prop_string_first(q, key);
            assert forall|i: int|
                0 <= i < p.len() && #[trigger] p[i].0 == key && (forall|j: int|
                    0 <= j < i ==> p[j].0 != key) implies prop_string(p, key) == (match p[i].1 {
                ScalarModel::Str(x) => x,
                _ => Seq::<u8>::empty(),
            }) by {
                assert(i > 0);
                assert(q[i - 1] == p[i]);
                assert forall|j: int| 0 <= j < i - 1 implies q[j].0 != key by {
                    assert(q[j] == p[j + 1]);
                }
                assert(q[i - 1].0 == key);
            }
            if forall|i: int| 0 <= i < p.len() ==> p[i].0 != key {
                assert forall|i: int| 0 <= i < q.len() implies q[i].0 != key by {
                    assert(q[i] == p[i + 1]);
                }
            }
        }
    }
}

/// A connect command is read into the fields of the command object that
/// carry the same names: `app`, `flashVer`, `swfUrl`, `tcUrl` and `type`,
/// each the string of the first property of that name.
pub proof fn lemma_connect_fields(m: ConnectMessage, data: Seq<u8>)
    requires
        connect_matches(m, data),
    ensures
        leading_values(data, 3) matches Some(v) && v[2] matches ValueModel::Object(p)
            && first_string_is(p, "app".spec_bytes(), m.connect_object.app@) && first_string_is(
            p,
            "flashVer".spec_bytes(),
            m.connect_object.flash_ver@,
        ) && first_string_is(p, "swfUrl".spec_bytes(), m.connect_object.swf_url@)
            && first_string_is(p, "tcUrl".spec_bytes(), m.connect_object.tc_url@)
            && first_string_is(p, "type".spec_bytes(), m.connect_object.stream_type@),
{
    let p = (connect_model(data)->0).2;
    lemma_prop_string_first(p, "app".spec_bytes());
    lemma_prop_string_first(p, "flashVer".spec_bytes());
    lemma_prop_string_first(p, "swfUrl".spec_bytes());
    lemma_prop_string_first(p, "tcUrl".spec_bytes());
    lemma_prop_string_first(p, "type".spec_bytes());
}

} // verus!
