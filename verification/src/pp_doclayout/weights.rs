use crate::error::LayoutError;
use safetensors::tensor::Dtype;
use safetensors::SafeTensors;
use vstd::prelude::*;
use vstd::string::StringExecFns;
use crate::text::{decimal_digits, decimal_string, list_string, list_text};

verus! {

/// Whether the safetensors crate accepts `bytes` as a complete safetensors file.
pub uninterp spec fn safetensors_accepts(bytes: Seq<u8>) -> bool;

/// The set of tensor names in the header of an accepted safetensors file.
pub uninterp spec fn safetensors_tensor_names(bytes: Seq<u8>) -> Set<Seq<char>>;

/// The tensor stored under `name` in an accepted safetensors file, as
/// `(dtype written as {:?} writes it, shape, little-endian data bytes)`;
/// `None` when absent.
pub uninterp spec fn safetensors_tensor(bytes: Seq<u8>, name: Seq<char>) -> Option<(Seq<char>, Seq<usize>, Seq<u8>)>;

/// Whether `names` lists each member of `set` exactly once and nothing else.
pub open spec fn lists_each_once(names: Seq<String>, set: Set<Seq<char>>) -> bool {
    &&& forall|i: int| 0 <= i < names.len() ==> set.contains(#[trigger] names[i]@)
    &&& forall|name: Seq<char>| #[trigger] set.contains(name) ==> exists|i: int|
        0 <= i < names.len() && #[trigger] names[i]@ == name
    &&& forall|i: int, j: int| 0 <= i < j < names.len() ==> #[trigger] names[i]@ != #[trigger] names[j]@
}

/// The text with which the safetensors crate reports that no tensor is stored
/// under `name`.
pub open spec fn tensor_not_found_text(name: Seq<char>) -> Seq<char> {
    "tensor `"@ + name + "` not found"@
}

/// The message for a tensor that cannot be looked up.
pub open spec fn load_tensor_message(name: Seq<char>) -> Seq<char> {
    "load tensor "@ + name + ": "@ + tensor_not_found_text(name)
}

/// The message for an F32 tensor of the expected rank that cannot be handed
/// out: missing, of another dtype, or of another rank.
pub open spec fn f32_tensor_message(bytes: Seq<u8>, name: Seq<char>, rank: usize) -> Seq<char> {
    match safetensors_tensor(bytes, name) {
        None => load_tensor_message(name),
        Some(tensor) => if tensor.0 != "F32"@ {
            "expected tensor "@ + name + " dtype F32, got "@ + tensor.0
        } else {
            "expected tensor "@ + name + " rank "@ + decimal_digits(rank as nat) + ", got shape "@
                + list_text(tensor.1)
        },
    }
}

/// One tensor of a safetensors file, copied out of the file.
#[derive(Debug, Clone)]
pub struct TensorRecord {
    pub is_f32: bool,
    pub dtype: String,
    pub shape: Vec<usize>,
    pub data: Vec<u8>,
}

/// Calls `SafeTensors::deserialize`, which parses and validates the header
/// (length prefix, UTF-8 JSON, dtypes, shapes and contiguous data offsets
/// covering the rest of the buffer). Claimed: it succeeds exactly on the
/// byte strings named by `safetensors_accepts`; the parsed view is dropped.
/// A refusal comes back as the error's display text, of which nothing is
/// claimed: which tensor an offset error names can follow the iteration
/// order of the header's hash map.
#[verifier::external_body]
fn deserialize_header(bytes: &[u8]) -> (result: Result<(), String>)
    ensures
        result is Ok <==> safetensors_accepts(bytes@),
{
    SafeTensors::deserialize(bytes).map(|_| ()).map_err(|error| error.to_string())
}

/// Calls `SafeTensors::names` on the deserialized file. Claimed: the names are
/// the keys of the header's tensor map, each listed once, in the map's
/// iteration order (which is not stated).
#[verifier::external_body]
fn header_tensor_names(bytes: &[u8]) -> (names: Vec<String>)
    requires
        safetensors_accepts(bytes@),
    ensures
        lists_each_once(names@, safetensors_tensor_names(bytes@)),
{
    match SafeTensors::deserialize(bytes) {
        Ok(tensors) => tensors.names().into_iter().map(|name| name.to_string()).collect(),
        Err(_) => Vec::new(),
    }
}

/// Calls `SafeTensors::tensor` on the deserialized file and copies out the
/// tensor's dtype (as `{:?}` writes it), shape and data. Claimed: it fails
/// exactly when the name is not a key of the header, with the display text of
/// `SafeTensorError::TensorNotFound`, and otherwise returns the named tensor;
/// the derived `Debug` of `Dtype` writes `F32` for `Dtype::F32` alone.
#[verifier::external_body]
fn header_tensor(bytes: &[u8], name: &str) -> (result: Result<TensorRecord, String>)
    requires
        safetensors_accepts(bytes@),
    ensures
        result is Ok <==> safetensors_tensor_names(bytes@).contains(name@),
        result is Ok <==> safetensors_tensor(bytes@, name@) is Some,
        result matches Ok(record) ==> safetensors_tensor(bytes@, name@) == Some(
            (record.dtype@, record.shape@, record.data@),
        ) && (record.is_f32 <==> record.dtype@ == "F32"@),
        result matches Err(text) ==> text@ == tensor_not_found_text(name@),
{
    let tensors = SafeTensors::deserialize(bytes).map_err(|error| error.to_string())?;
    let view = tensors.tensor(name).map_err(|error| error.to_string())?;
    Ok(
        TensorRecord {
            is_f32: matches!(view.dtype(), Dtype::F32),
            dtype: format!("{:?}", view.dtype()),
            shape: view.shape().to_vec(),
            data: view.data().to_vec(),
        },
    )
}

/// `deserialize safetensors: <text>`.
fn deserialize_message(text: String) -> (message: String)
    ensures
        message@ == "deserialize safetensors: "@ + text@,
{
    let mut message = String::from_str("deserialize safetensors: ");
    message.append(text.as_str());
    message
}

/// `load tensor <name>: <text>`.
fn load_tensor_error(name: &str, text: String) -> (message: String)
    ensures
        message@ == "load tensor "@ + name@ + ": "@ + text@,
{
    let mut message = String::from_str("load tensor ");
    message.append(name);
    message.append(": ");
    message.append(text.as_str());
    message
}

/// Name and shape of one checkpoint tensor.
#[derive(Debug, Clone, PartialEq, Eq)]
pub struct WeightInfo {
    pub name: String,
    pub shape: Vec<usize>,
}

/// The bytes of a PP-DocLayoutV3 checkpoint in safetensors format, known to be
/// accepted by the safetensors crate.
pub struct PPDocLayoutV3Weights {
    bytes: Vec<u8>,
}

impl View for PPDocLayoutV3Weights {
    type V = Seq<u8>;

    closed spec fn view(&self) -> Seq<u8> {
        self.bytes@
    }
}

impl PPDocLayoutV3Weights {
    #[verifier::type_invariant]
    closed spec fn holds_safetensors(self) -> bool {
        safetensors_accepts(self.bytes@)
    }

    /// Creates a weight store from in-memory safetensors bytes after validation.
    pub fn from_bytes(bytes: Vec<u8>) -> (result: Result<Self, LayoutError>)
        ensures
            result is Ok <==> safetensors_accepts(bytes@),
            result matches Ok(weights) ==> weights@ == bytes@,
            result matches Err(error) ==> exists|text: Seq<char>|
                error.is_model_output_error("deserialize safetensors: "@ + text),
    {
        match deserialize_header(bytes.as_slice()) {
            Ok(()) => Ok(Self { bytes }),
            Err(text) => {
                let message = deserialize_message(text);
                Err(LayoutError::InvalidModelOutput(message))
            },
        }
    }

    /// Returns all tensor names stored in the safetensors model file, each once.
    pub fn names(&self) -> (result: Result<Vec<String>, LayoutError>)
        ensures
            result matches Ok(names) && lists_each_once(names@, safetensors_tensor_names(self@)),
    {
        proof {
            use_type_invariant(self);
        }
        let names = header_tensor_names(self.bytes.as_slice());
        assert(self@ == self.bytes@);
        Ok(names)
    }

    /// Returns shape metadata for one named tensor without converting its data.
    pub fn info(&self, name: &str) -> (result: Result<WeightInfo, LayoutError>)
        ensures
            result is Ok <==> safetensors_tensor_names(self@).contains(name@),
            safetensors_tensor_names(self@).contains(name@) <==> safetensors_tensor(self@, name@) is Some,
            result matches Ok(info) ==> info.name@ == name@ && (safetensors_tensor(self@, name@) matches Some(
                tensor,
            ) && info.shape@ == tensor.1),
            result matches Err(error) ==> error.is_model_output_error(load_tensor_message(name@)),
    {
        proof {
            use_type_invariant(self);
        }
        match header_tensor(self.bytes.as_slice(), name) {
            Ok(record) => Ok(WeightInfo { name: String::from_str(name), shape: record.shape }),
            Err(text) => Err(LayoutError::InvalidModelOutput(load_tensor_error(name, text))),
        }
    }

    /// Returns the little-endian data bytes and the shape of one F32 tensor of
    /// the expected rank.
    ///
    /// Returns [`LayoutError::InvalidModelOutput`] when the tensor is missing,
    /// is not F32, or has another rank.
    pub fn tensor_f32_le_bytes(&self, name: &str, rank: usize) -> (result: Result<
        (Vec<u8>, Vec<usize>),
        LayoutError,
    >)
        ensures
            result is Ok <==> (safetensors_tensor(self@, name@) matches Some(tensor) && tensor.0
                == "F32"@ && tensor.1.len() == rank),
            result is Ok ==> safetensors_tensor_names(self@).contains(name@),
            result matches Ok((data, shape)) ==> safetensors_tensor(self@, name@) == Some(
                ("F32"@, shape@, data@),
            ),
            result matches Err(error) ==> error.is_model_output_error(
                f32_tensor_message(self@, name@, rank),
            ),
    {
        proof {
            use_type_invariant(self);
        }
        let record = match header_tensor(self.bytes.as_slice(), name) {
            Ok(record) => record,
            Err(text) => {
                return Err(LayoutError::InvalidModelOutput(load_tensor_error(name, text)));
            },
        };
        if !record.is_f32 {
            let mut message = String::from_str("expected tensor ");
            message.append(name);
            message.append(" dtype F32, got ");
            message.append(record.dtype.as_str());
            return Err(LayoutError::InvalidModelOutput(message));
        }
        if record.shape.len() != rank {
            let mut message = String::from_str("expected tensor ");
            message.append(name);
            message.append(" rank ");
            let rank_text = decimal_string(rank as u128);
            message.append(rank_text.as_str());
            message.append(", got shape ");
            let shape_text = list_string(record.shape.as_slice());
            message.append(shape_text.as_str());
            return Err(LayoutError::InvalidModelOutput(message));
        }
        Ok((record.data, record.shape))
    }

    /// Validates that the safetensors payload can be deserialized.
    pub fn validate(&self) -> (result: Result<(), LayoutError>)
        ensures
            result is Ok,
    {
        proof {
            use_type_invariant(self);
        }
        match deserialize_header(self.bytes.as_slice()) {
            Ok(()) => Ok(()),
            Err(text) => Err(LayoutError::InvalidModelOutput(deserialize_message(text))),
        }
    }
}

} // verus!
