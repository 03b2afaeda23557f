use vstd::prelude::*;

verus! {

/// Version byte written before every stored record.
pub const CURRENT_RECORD_VERSION: u8 = 1;

#[derive(Debug, Clone, Copy, PartialEq, Eq, Structural)]
pub enum StorageNamespace {
    Metadata,
}

/// Failures of the metadata store.
#[derive(Debug, Clone, PartialEq, Eq)]
pub enum StorageError {
    Io(String),
    Backend(String),
    Serialization(String),
    UnsupportedVersion(u8),
    Corrupted(String),
    NotFound(String),
    AlreadyExists(String),
}

impl StorageError {
    pub fn io(message: String) -> (r: StorageError)
        ensures
            r == StorageError::Io(message),
    {
        StorageError::Io(message)
    }

    pub fn backend(message: String) -> (r: StorageError)
        ensures
            r == StorageError::Backend(message),
    {
        StorageError::Backend(message)
    }

    pub fn serialization(message: String) -> (r: StorageError)
        ensures
            r == StorageError::Serialization(message),
    {
        StorageError::Serialization(message)
    }
}

#[derive(Debug, Clone, PartialEq, Eq)]
pub struct StoredStream {
    pub id: String,
    pub stream_type: StoredStreamType,
    pub schema_json: String,
    pub props: StoredStreamProps,
    pub decoder_type: String,
}

#[derive(Debug, Clone, Copy, PartialEq, Eq, Structural)]
pub enum StoredStreamType {
    Mqtt,
}

#[derive(Debug, Clone, PartialEq, Eq)]
pub enum StoredStreamProps {
    Mqtt(StoredMqttStreamProps),
}

#[derive(Debug, Clone, PartialEq, Eq)]
pub struct StoredMqttStreamProps {
    pub broker_url: String,
    pub topic: String,
    pub qos: u8,
    pub client_id: Option<String>,
    pub connector_key: Option<String>,
}

#[derive(Debug, Clone, PartialEq, Eq)]
pub struct StoredPipeline {
    pub id: String,
    pub sql: String,
    pub sinks: Vec<StoredSink>,
}

#[derive(Debug, Clone, PartialEq, Eq)]
pub struct StoredSink {
    pub id: String,
    pub kind: String,
    pub config_json: String,
}

#[derive(Debug, Clone, PartialEq, Eq)]
pub struct StoredMqttClientConfig {
    pub key: String,
    pub broker_url: String,
    pub topic: String,
    pub client_id: String,
    pub qos: u8,
}

/// A stored record: the version byte, then the encoded payload.
pub fn encode_record(payload: &[u8]) -> (r: Vec<u8>)
    ensures
        r@ == seq![CURRENT_RECORD_VERSION] + payload@,
{
    let mut out: Vec<u8> = Vec::new();
    out.push(CURRENT_RECORD_VERSION);
    let mut i: usize = 0;
    while i < payload.len()
        invariant
            0 <= i <= payload@.len(),
            out@ == seq![CURRENT_RECORD_VERSION] + payload@.subrange(0, i as int),
        decreases payload@.len() - i,
    {
        out.push(payload[i]);
        proof {
            assert(out@ =~= seq![CURRENT_RECORD_VERSION] + payload@.subrange(0, i + 1));
        }
        i += 1;
    }
    proof {
        assert(payload@.subrange(0, payload@.len() as int) =~= payload@);
    }
    out
}

/// The payload of a stored record: an empty record is corrupted, and a
/// record of another version is refused.
pub fn decode_record(raw: &[u8]) -> (r: Result<Vec<u8>, StorageError>)
    ensures
        raw@.len() == 0 ==> r is Err && r->Err_0 is Corrupted,
        raw@.len() > 0 && raw@[0] != CURRENT_RECORD_VERSION ==> r == Err::<Vec<u8>, StorageError>(
            StorageError::UnsupportedVersion(raw@[0]),
        ),
        raw@.len() > 0 && raw@[0] == CURRENT_RECORD_VERSION ==> r is Ok && r->Ok_0@ == raw@.drop_first(),
{
    if raw.len() == 0 {
        return Err(StorageError::Corrupted("empty record".to_string()));
    }
    if raw[0] != CURRENT_RECORD_VERSION {
        return Err(StorageError::UnsupportedVersion(raw[0]));
    }
    let mut out: Vec<u8> = Vec::new();
    let mut i: usize = 1;
    while i < raw.len()
        invariant
            1 <= i <= raw@.len(),
            out@ == raw@.subrange(1, i as int),
        decreases raw@.len() - i,
    {
        out.push(raw[i]);
        proof {
            assert(out@ =~= raw@.subrange(1, i + 1));
        }
        i += 1;
    }
    proof {
        assert(out@ =~= raw@.drop_first());
    }
    Ok(out)
}

/// Decoding an encoded record gives back its payload.
pub proof fn lemma_record_roundtrip(payload: Seq<u8>)
    ensures
        (seq![CURRENT_RECORD_VERSION] + payload).len() > 0,
        (seq![CURRENT_RECORD_VERSION] + payload)[0] == CURRENT_RECORD_VERSION,
        (seq![CURRENT_RECORD_VERSION] + payload).drop_first() == payload,
{
    assert((seq![CURRENT_RECORD_VERSION] + payload).drop_first() =~= payload);
}

} // verus!
